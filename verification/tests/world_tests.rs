use animation_graph::world::{overlay_map, parse_pair, parse_usize, TileIndex, WorldReader};

#[test]
fn tile_decoding_covers_all_corners() {
    let cases = [
        (('G', 'G', 'G', 'W'), TileIndex::ShoreTopLeft),
        (('G', 'G', 'W', 'W'), TileIndex::ShoreTopMiddle),
        (('G', 'G', 'W', 'G'), TileIndex::ShoreTopRight),
        (('G', 'W', 'G', 'W'), TileIndex::ShoreLeft),
        (('W', 'W', 'W', 'W'), TileIndex::Water),
        (('W', 'G', 'W', 'G'), TileIndex::ShoreRight),
        (('G', 'W', 'G', 'G'), TileIndex::ShoreBottomLeft),
        (('W', 'W', 'G', 'G'), TileIndex::ShoreBottomMiddle),
        (('W', 'G', 'G', 'G'), TileIndex::ShoreBottomRight),
        (('W', 'W', 'W', 'G'), TileIndex::IslandTopLeft),
        (('W', 'W', 'G', 'W'), TileIndex::IslandTopRight),
        (('G', 'G', 'G', 'G'), TileIndex::Grass),
        (('W', 'G', 'W', 'W'), TileIndex::IslandBottomLeft),
        (('G', 'W', 'W', 'W'), TileIndex::IslandBottomRight),
    ];
    for ((tl, tr, bl, br), expected) in cases {
        let got = TileIndex::new(tl, tr, bl, br).expect("a known corner combination");
        assert_eq!(got, expected);
    }
}

#[test]
fn unknown_corners_are_rejected() {
    assert!(TileIndex::new('X', 'X', 'X', 'X').is_err());
    assert!(TileIndex::new('G', 'G', 'W', 'X').is_err());
    assert!(TileIndex::new('g', 'g', 'g', 'g').is_err());
}

#[test]
fn atlas_positions_are_row_major() {
    assert_eq!(TileIndex::ShoreTopLeft.atlas_index(), 0);
    assert_eq!(TileIndex::ShoreTopMiddle.atlas_index(), 1);
    assert_eq!(TileIndex::ShoreTopRight.atlas_index(), 2);
    assert_eq!(TileIndex::ShoreLeft.atlas_index(), 3);
    assert_eq!(TileIndex::Water.atlas_index(), 4);
    assert_eq!(TileIndex::ShoreRight.atlas_index(), 5);
    assert_eq!(TileIndex::ShoreBottomLeft.atlas_index(), 6);
    assert_eq!(TileIndex::ShoreBottomMiddle.atlas_index(), 7);
    assert_eq!(TileIndex::ShoreBottomRight.atlas_index(), 8);
    assert_eq!(TileIndex::IslandTopLeft.atlas_index(), 9);
    assert_eq!(TileIndex::IslandTopRight.atlas_index(), 10);
    assert_eq!(TileIndex::Grass.atlas_index(), 11);
    assert_eq!(TileIndex::IslandBottomLeft.atlas_index(), 12);
    assert_eq!(TileIndex::IslandBottomRight.atlas_index(), 13);
}

#[test]
fn parse_usize_accepts_decimals() {
    assert_eq!(parse_usize("0"), Some(0));
    assert_eq!(parse_usize("123"), Some(123));
    assert_eq!(parse_usize("+42"), Some(42));
    assert_eq!(parse_usize("18446744073709551615"), Some(usize::MAX));
}

#[test]
fn parse_usize_rejects_junk() {
    assert_eq!(parse_usize(""), None);
    assert_eq!(parse_usize("+"), None);
    assert_eq!(parse_usize("12a"), None);
    assert_eq!(parse_usize("a12"), None);
    assert_eq!(parse_usize("-3"), None);
    assert_eq!(parse_usize("1 2"), None);
    assert_eq!(parse_usize("18446744073709551616"), None);
}

#[test]
fn parse_pair_splits_at_first_comma() {
    assert_eq!(parse_pair("3,4"), Some((3, 4)));
    assert_eq!(parse_pair("100,50"), Some((100, 50)));
    assert_eq!(parse_pair("3;4"), None);
    assert_eq!(parse_pair(",4"), None);
    assert_eq!(parse_pair("3,"), None);
    assert_eq!(parse_pair("1,2,3"), None);
    assert_eq!(parse_pair(""), None);
}

#[test]
fn world_descriptor_parses() {
    let lines = vec!["100,50".to_string(), "2,3".to_string(), "map.txt".to_string()];
    let w = WorldReader::from_lines(&lines).expect("a valid descriptor");
    assert_eq!(w.height, 100);
    assert_eq!(w.width, 50);
    assert_eq!(w.base_row, 2);
    assert_eq!(w.base_col, 3);
    assert_eq!(w.save_path.as_deref(), Some("map.txt"));
}

#[test]
fn world_descriptor_without_map_file() {
    let lines = vec!["4,4".to_string(), "0,0".to_string()];
    let w = WorldReader::from_lines(&lines).expect("a valid descriptor");
    assert!(w.save_path.is_none());
}

#[test]
fn world_descriptor_errors() {
    assert!(WorldReader::from_lines(&vec!["4,4".to_string()]).is_err());
    assert!(WorldReader::from_lines(&vec![]).is_err());
    let bad = vec!["4;4".to_string(), "0,0".to_string()];
    assert!(WorldReader::from_lines(&bad).is_err());
    let bad2 = vec!["4,4".to_string(), "zero,0".to_string()];
    assert!(WorldReader::from_lines(&bad2).is_err());
}

#[test]
fn default_world_is_hundred_square() {
    let w = WorldReader::default();
    assert_eq!(w.width, 100);
    assert_eq!(w.height, 100);
    assert_eq!(w.base_row, 0);
    assert_eq!(w.base_col, 0);
    assert!(w.save_path.is_none());
}

#[test]
fn into_tiles_builds_grass_grid() {
    let w = WorldReader { width: 5, height: 3, base_row: 0, base_col: 0, save_path: None };
    let grid = w.into_tiles().expect("the base grid always builds");
    assert_eq!(grid.len(), 3);
    for row in &grid {
        assert_eq!(row.len(), 5);
        for tile in row {
            assert_eq!(*tile, TileIndex::Grass);
        }
    }
}

fn grass(rows: usize, cols: usize) -> Vec<Vec<TileIndex>> {
    (0..rows).map(|_| (0..cols).map(|_| TileIndex::Grass).collect()).collect()
}

fn chars(lines: &[&str]) -> Vec<Vec<char>> {
    lines.iter().map(|l| l.chars().collect()).collect()
}

#[test]
fn overlay_writes_decoded_tiles() {
    let base = grass(3, 3);
    let lines = chars(&["WW", "WW"]);
    let out = overlay_map(base, &lines, 1, 1).expect("the map fits");
    assert_eq!(out.len(), 3);
    for (i, row) in out.iter().enumerate() {
        for (j, tile) in row.iter().enumerate() {
            if (i, j) == (1, 1) {
                assert_eq!(*tile, TileIndex::Water);
            } else {
                assert_eq!(*tile, TileIndex::Grass);
            }
        }
    }
}

#[test]
fn overlay_decodes_each_block() {
    let base = grass(1, 2);
    let lines = chars(&["GGGW", "GWWW"]);
    let out = overlay_map(base, &lines, 0, 0).expect("the map fits");
    assert_eq!(out[0][0], TileIndex::ShoreTopLeft);
    assert_eq!(out[0][1], TileIndex::IslandBottomRight);
}

#[test]
fn overlay_rejects_bad_maps() {
    assert!(overlay_map(grass(2, 2), &chars(&[]), 0, 0).is_err());
    assert!(overlay_map(grass(2, 2), &chars(&[""]), 0, 0).is_err());
    // odd dimensions
    assert!(overlay_map(grass(2, 2), &chars(&["W"]), 0, 0).is_err());
    assert!(overlay_map(grass(2, 2), &chars(&["WWW", "WWW"]), 0, 0).is_err());
    // ragged rows
    assert!(overlay_map(grass(2, 2), &chars(&["WW", "W"]), 0, 0).is_err());
    // does not fit at the offset
    assert!(overlay_map(grass(1, 1), &chars(&["WW", "WW"]), 1, 0).is_err());
    assert!(overlay_map(grass(1, 1), &chars(&["WW", "WW"]), 0, 1).is_err());
    assert!(overlay_map(grass(1, 1), &chars(&["WWWW", "WWWW", "WWWW", "WWWW"]), 0, 0).is_err());
    // a block that describes no tile
    assert!(overlay_map(grass(1, 1), &chars(&["GX", "WW"]), 0, 0).is_err());
}
