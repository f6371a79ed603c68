use animation_graph::animation::CharacterAnimation;
use animation_graph::error::GameError;
use animation_graph::timer::FrameTimer;
use animation_graph::variable::Variable;

// Wildcard equality: the wildcard compares equal to anything, on either side.
#[test]
fn wildcard_matches_everything() {
    assert!(Variable::Any == Variable::Bool(true));
    assert!(Variable::Any == Variable::Bool(false));
    assert!(Variable::Any == Variable::Enum("left".to_string()));
    assert!(Variable::Bool(true) == Variable::Any);
    assert!(Variable::Enum("left".to_string()) == Variable::Any);
    assert!(Variable::Any == Variable::Any);
}

#[test]
fn payload_equality() {
    assert!(Variable::Bool(true) == Variable::Bool(true));
    assert!(Variable::Bool(true) != Variable::Bool(false));
    assert!(Variable::Enum("a".to_string()) == Variable::Enum("a".to_string()));
    assert!(Variable::Enum("a".to_string()) != Variable::Enum("b".to_string()));
}

#[test]
fn mismatched_kinds_are_unequal() {
    assert!(Variable::Bool(true) != Variable::Enum("true".to_string()));
    assert!(Variable::Enum("false".to_string()) != Variable::Bool(false));
}

#[test]
fn is_any_only_on_wildcard() {
    assert!(Variable::Any.is_any());
    assert!(!Variable::Bool(true).is_any());
    assert!(!Variable::Enum("x".to_string()).is_any());
}

#[test]
fn duplicate_keeps_content() {
    let v = Variable::Enum("down".to_string());
    assert!(v.duplicate() == v);
    let b = Variable::Bool(true);
    assert!(b.duplicate() == b);
    assert!(Variable::Any.duplicate().is_any());
}

#[test]
fn timer_counts_down_duration() {
    let mut t = FrameTimer::new(5);
    assert_eq!(t.elapsed, 0);
    assert_eq!(t.duration, 5);
    assert!(!t.finished());
    t.tick(3);
    assert!(!t.finished());
    t.tick(2);
    assert!(t.finished());
    assert_eq!(t.elapsed, 5);
}

#[test]
fn timer_keeps_overshoot() {
    let mut t = FrameTimer::new(10);
    t.tick(17);
    assert!(t.finished());
    assert_eq!(t.elapsed, 17);
}

#[test]
fn timer_saturates_at_max() {
    let mut t = FrameTimer::new(10);
    t.tick(u64::MAX);
    t.tick(u64::MAX);
    assert_eq!(t.elapsed, u64::MAX);
    assert!(t.finished());
}

#[test]
fn animation_fields_and_frame_duration() {
    let a = CharacterAnimation::new(36, 4, true, 400000);
    assert_eq!(a.start, 36);
    assert_eq!(a.count, 4);
    assert!(a.flip_x);
    assert_eq!(a.animation_duration, 400000);
    assert_eq!(a.frame_duration(), 100000);
    let b = CharacterAnimation::new(0, 6, false, 1000000);
    assert_eq!(b.frame_duration(), 166666);
}

#[test]
fn game_error_carries_message() {
    let e = GameError::new("something broke".to_string());
    assert_eq!(e.message(), "something broke");
    assert_eq!(e.0, "something broke");
}
