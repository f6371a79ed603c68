//! The tile world: decoding saved maps into tile indices.
//!
//! A saved map is a character grid twice the size of the tile grid: each
//! tile is described by a 2x2 block of `'G'` (grass) and `'W'` (water)
//! corners, which picks the matching shore, island, grass or water tile.

use crate::error::GameError;
use vstd::prelude::*;

verus! {

/// A position in the tile atlas, by what the tile shows.
#[derive(Debug, Clone, Copy, PartialEq, Eq, Structural)]
pub enum TileIndex {
    ShoreTopLeft,
    ShoreTopMiddle,
    ShoreTopRight,
    ShoreLeft,
    Water,
    ShoreRight,
    ShoreBottomLeft,
    ShoreBottomMiddle,
    ShoreBottomRight,
    IslandTopLeft,
    IslandTopRight,
    Grass,
    IslandBottomLeft,
    IslandBottomRight,
}

/// The tile described by the four corners of a 2x2 map block, if the
/// combination is a known tile.
pub open spec fn spec_tile_for(
    top_left: char,
    top_right: char,
    bottom_left: char,
    bottom_right: char,
) -> Option<TileIndex> {
    match (top_left, top_right, bottom_left, bottom_right) {
        ('G', 'G', 'G', 'W') => Some(TileIndex::ShoreTopLeft),
        ('G', 'G', 'W', 'W') => Some(TileIndex::ShoreTopMiddle),
        ('G', 'G', 'W', 'G') => Some(TileIndex::ShoreTopRight),
        ('G', 'W', 'G', 'W') => Some(TileIndex::ShoreLeft),
        ('W', 'W', 'W', 'W') => Some(TileIndex::Water),
        ('W', 'G', 'W', 'G') => Some(TileIndex::ShoreRight),
        ('G', 'W', 'G', 'G') => Some(TileIndex::ShoreBottomLeft),
        ('W', 'W', 'G', 'G') => Some(TileIndex::ShoreBottomMiddle),
        ('W', 'G', 'G', 'G') => Some(TileIndex::ShoreBottomRight),
        ('W', 'W', 'W', 'G') => Some(TileIndex::IslandTopLeft),
        ('W', 'W', 'G', 'W') => Some(TileIndex::IslandTopRight),
        ('G', 'G', 'G', 'G') => Some(TileIndex::Grass),
        ('W', 'G', 'W', 'W') => Some(TileIndex::IslandBottomLeft),
        ('G', 'W', 'W', 'W') => Some(TileIndex::IslandBottomRight),
        _ => None,
    }
}

impl TileIndex {
    /// The row-major position of this tile in the atlas.
    pub open spec fn spec_atlas_index(self) -> int {
        match self {
            TileIndex::ShoreTopLeft => 0,
            TileIndex::ShoreTopMiddle => 1,
            TileIndex::ShoreTopRight => 2,
            TileIndex::ShoreLeft => 3,
            TileIndex::Water => 4,
            TileIndex::ShoreRight => 5,
            TileIndex::ShoreBottomLeft => 6,
            TileIndex::ShoreBottomMiddle => 7,
            TileIndex::ShoreBottomRight => 8,
            TileIndex::IslandTopLeft => 9,
            TileIndex::IslandTopRight => 10,
            TileIndex::Grass => 11,
            TileIndex::IslandBottomLeft => 12,
            TileIndex::IslandBottomRight => 13,
        }
    }

    /// The row-major position of this tile in the atlas.
    pub fn atlas_index(&self) -> (i: usize)
        ensures
            i == self.spec_atlas_index(),
    {
        match self {
            TileIndex::ShoreTopLeft => 0,
            TileIndex::ShoreTopMiddle => 1,
            TileIndex::ShoreTopRight => 2,
            TileIndex::ShoreLeft => 3,
            TileIndex::Water => 4,
            TileIndex::ShoreRight => 5,
            TileIndex::ShoreBottomLeft => 6,
            TileIndex::ShoreBottomMiddle => 7,
            TileIndex::ShoreBottomRight => 8,
            TileIndex::IslandTopLeft => 9,
            TileIndex::IslandTopRight => 10,
            TileIndex::Grass => 11,
            TileIndex::IslandBottomLeft => 12,
            TileIndex::IslandBottomRight => 13,
        }
    }

    /// Decode one 2x2 block of map corners into a tile; an unknown
    /// combination is rejected.
    pub fn new(top_left: char, top_right: char, bottom_left: char, bottom_right: char) -> (r:
        Result<TileIndex, GameError>)
        ensures
            match spec_tile_for(top_left, top_right, bottom_left, bottom_right) {
                Some(t) => r matches Ok(rt) && rt == t,
                None => r matches Err(e) && e.0@ == "Tile index without a correct format"@,
            },
    {
        match (top_left, top_right, bottom_left, bottom_right) {
            ('G', 'G', 'G', 'W') => Ok(TileIndex::ShoreTopLeft),
            ('G', 'G', 'W', 'W') => Ok(TileIndex::ShoreTopMiddle),
            ('G', 'G', 'W', 'G') => Ok(TileIndex::ShoreTopRight),
            ('G', 'W', 'G', 'W') => Ok(TileIndex::ShoreLeft),
            ('W', 'W', 'W', 'W') => Ok(TileIndex::Water),
            ('W', 'G', 'W', 'G') => Ok(TileIndex::ShoreRight),
            ('G', 'W', 'G', 'G') => Ok(TileIndex::ShoreBottomLeft),
            ('W', 'W', 'G', 'G') => Ok(TileIndex::ShoreBottomMiddle),
            ('W', 'G', 'G', 'G') => Ok(TileIndex::ShoreBottomRight),
            ('W', 'W', 'W', 'G') => Ok(TileIndex::IslandTopLeft),
            ('W', 'W', 'G', 'W') => Ok(TileIndex::IslandTopRight),
            ('G', 'G', 'G', 'G') => Ok(TileIndex::Grass),
            ('W', 'G', 'W', 'W') => Ok(TileIndex::IslandBottomLeft),
            ('G', 'W', 'W', 'W') => Ok(TileIndex::IslandBottomRight),
            _ => Err(GameError::new("Tile index without a correct format".to_owned())),
        }
    }
}

/// Whether `c` is a decimal digit.
pub open spec fn is_digit_char(c: char) -> bool {
    '0' <= c && c <= '9'
}

/// Whether every character of `s` is a decimal digit.
pub open spec fn all_digits(s: Seq<char>) -> bool {
    forall|i: int| 0 <= i < s.len() ==> is_digit_char(#[trigger] s[i])
}

/// The number the digit string `s` denotes, most significant digit first.
pub open spec fn digits_val(s: Seq<char>) -> int
    decreases s.len(),
{
    if s.len() == 0 {
        0
    } else {
        digits_val(s.drop_last()) * 10 + (s.last() as u32 - 48)
    }
}

/// The number a digit string denotes is never negative.
pub proof fn lemma_digits_val_nonneg(s: Seq<char>)
    requires
        all_digits(s),
    ensures
        digits_val(s) >= 0,
    decreases s.len(),
{
    if s.len() > 0 {
        assert(all_digits(s.drop_last()));
        lemma_digits_val_nonneg(s.drop_last());
    }
}

/// A prefix of a digit string never denotes more than the whole string.
pub proof fn lemma_digits_val_prefix(s: Seq<char>, j: int)
    requires
        all_digits(s),
        0 <= j <= s.len(),
    ensures
        digits_val(s.take(j)) <= digits_val(s),
    decreases s.len() - j,
{
    if j < s.len() {
        assert(s.take(j + 1).drop_last() =~= s.take(j));
        assert(s.take(j + 1).last() == s[j]);
        assert(all_digits(s.take(j)));
        lemma_digits_val_nonneg(s.take(j));
        assert(digits_val(s.take(j + 1)) == digits_val(s.take(j)) * 10 + (s[j] as u32 - 48));
        lemma_digits_val_prefix(s, j + 1);
    } else {
        assert(s.take(j) =~= s);
    }
}

/// The number an unsigned decimal string denotes: an optional leading `+`,
/// then at least one digit, and a value that fits the machine word.
pub open spec fn spec_parse_usize(s: Seq<char>) -> Option<usize> {
    let body = if s.len() > 0 && s[0] == '+' {
        s.skip(1)
    } else {
        s
    };
    if body.len() > 0 && all_digits(body) && digits_val(body) <= usize::MAX {
        Some(digits_val(body) as usize)
    } else {
        None
    }
}

/// Parse an unsigned decimal number: an optional leading `+`, then digits.
/// Rejects an empty string, any other character, and a value too large for
/// the machine word.
pub fn parse_usize(s: &str) -> (r: Option<usize>)
    ensures
        r == spec_parse_usize(s@),
{
    let n = s.unicode_len();
    let start: usize = if n > 0 && s.get_char(0) == '+' {
        1
    } else {
        0
    };
    let ghost body = if start == 1 {
        s@.skip(1)
    } else {
        s@
    };
    if start >= n {
        return None;
    }
    let mut acc: usize = 0;
    let mut i: usize = start;
    while i < n
        invariant
            n == s@.len(),
            start <= 1,
            start < n,
            start <= i <= n,
            (start == 1) == (s@.len() > 0 && s@[0] == '+'),
            body == (if start == 1 {
                s@.skip(1)
            } else {
                s@
            }),
            body.len() == n - start,
            forall|j: int| 0 <= j < body.len() ==> body[j] == s@[j + start],
            forall|j: int| 0 <= j < i - start ==> is_digit_char(#[trigger] body[j]),
            acc == digits_val(body.take(i - start)),
        decreases n - i,
    {
        let c = s.get_char(i);
        let cu = c as u32;
        if cu < 48 || cu > 57 {
            assert(!is_digit_char(body[i - start]));
            return None;
        }
        let d = (cu - 48) as usize;
        let next = match acc.checked_mul(10) {
            Some(x) => x.checked_add(d),
            None => None,
        };
        proof {
            assert(body.take(i - start + 1).drop_last() =~= body.take(i - start));
            assert(body.take(i - start + 1).last() == body[i - start]);
        }
        match next {
            Some(x) => {
                acc = x;
            },
            None => {
                // the prefix read so far already exceeds the machine word,
                // so the whole string does too
                proof {
                    if all_digits(body) {
                        lemma_digits_val_prefix(body, i - start + 1);
                    }
                }
                return None;
            },
        }
        i = i + 1;
    }
    proof {
        assert(body.take(n - start) =~= body);
    }
    Some(acc)
}

/// The position of the first `c` in `s` at or after `i`.
pub open spec fn find_char_from(s: Seq<char>, c: char, i: int) -> Option<int>
    decreases s.len() - i,
{
    if i < 0 || i >= s.len() {
        None
    } else if s[i] == c {
        Some(i)
    } else {
        find_char_from(s, c, i + 1)
    }
}

/// The two numbers a `"<first>,<second>"` string denotes, split at the first
/// comma.
pub open spec fn spec_parse_pair(s: Seq<char>) -> Option<(usize, usize)> {
    match find_char_from(s, ',', 0) {
        Some(k) => match (spec_parse_usize(s.take(k)), spec_parse_usize(s.skip(k + 1))) {
            (Some(a), Some(b)) => Some((a, b)),
            _ => None,
        },
        None => None,
    }
}

/// Parse a `"<first>,<second>"` pair of unsigned decimal numbers, split at
/// the first comma.
pub fn parse_pair(s: &str) -> (r: Option<(usize, usize)>)
    ensures
        r == spec_parse_pair(s@),
{
    let n = s.unicode_len();
    let mut k: usize = 0;
    while k < n
        invariant
            n == s@.len(),
            0 <= k <= n,
            find_char_from(s@, ',', 0) == find_char_from(s@, ',', k as int),
        decreases n - k,
    {
        if s.get_char(k) == ',' {
            let left = s.substring_char(0, k);
            let right = s.substring_char(k + 1, n);
            proof {
                assert(left@ =~= s@.take(k as int));
                assert(right@ =~= s@.skip(k as int + 1));
            }
            let a = parse_usize(left);
            let b = parse_usize(right);
            return match (a, b) {
                (Some(a), Some(b)) => Some((a, b)),
                _ => None,
            };
        }
        k = k + 1;
    }
    None
}

/// The world descriptor: the size of the tile grid, where a saved map is
/// placed in it, and which saved map file to load, if any.
#[derive(Debug)]
pub struct WorldReader {
    pub width: usize,
    pub height: usize,
    pub base_row: usize,
    pub base_col: usize,
    pub save_path: Option<String>,
}

impl Default for WorldReader {
    /// A hundred-by-hundred world with no saved map.
    fn default() -> (r: Self)
        ensures
            r.width == 100,
            r.height == 100,
            r.base_row == 0,
            r.base_col == 0,
            r.save_path is None,
    {
        WorldReader { width: 100, height: 100, base_row: 0, base_col: 0, save_path: None }
    }
}

impl WorldReader {
    /// Parse a world descriptor from its lines: the first line holds
    /// `"height,width"`, the second the `"row,col"` where the saved map is
    /// placed, and an optional third line names the saved map file.
    pub fn from_lines(lines: &Vec<String>) -> (r: Result<WorldReader, GameError>)
        ensures
            match r {
                Ok(w) => {
                    &&& lines@.len() >= 2
                    &&& spec_parse_pair(lines@[0]@) matches Some(p) && w.height == p.0 && w.width
                        == p.1
                    &&& spec_parse_pair(lines@[1]@) matches Some(p) && w.base_row == p.0
                        && w.base_col == p.1
                    &&& if lines@.len() >= 3 {
                        w.save_path matches Some(s) && s@ == lines@[2]@
                    } else {
                        w.save_path is None
                    }
                },
                Err(_) => lines@.len() < 2 || spec_parse_pair(lines@[0]@) is None
                    || spec_parse_pair(lines@[1]@) is None,
            },
    {
        if lines.len() < 2 {
            return Err(GameError::new("failed to read World file".to_owned()));
        }
        let size = parse_pair(lines[0].as_str());
        let base = parse_pair(lines[1].as_str());
        match (size, base) {
            (Some((height, width)), Some((base_row, base_col))) => {
                let save_path = if lines.len() >= 3 {
                    Some(lines[2].clone())
                } else {
                    None
                };
                Ok(WorldReader { width, height, base_row, base_col, save_path })
            },
            _ => Err(GameError::new("failed to parse world width and size".to_owned())),
        }
    }

    /// The base tile grid this descriptor asks for: `height` rows of `width`
    /// grass tiles. A saved map, if any, is laid over it afterwards.
    pub fn into_tiles(self) -> (r: Result<Vec<Vec<TileIndex>>, GameError>)
        ensures
            r matches Ok(grid) && {
                &&& grid@.len() == self.height
                &&& forall|i: int| 0 <= i < grid@.len() ==> (#[trigger] grid@[i])@.len()
                    == self.width
                &&& forall|i: int, j: int|
                    0 <= i < grid@.len() && 0 <= j < self.width ==> (#[trigger] grid@[i]@[j])
                        == TileIndex::Grass
            },
    {
        let mut grid: Vec<Vec<TileIndex>> = Vec::new();
        let mut row_index: usize = 0;
        while row_index < self.height
            invariant
                row_index <= self.height,
                grid@.len() == row_index,
                forall|i: int| 0 <= i < grid@.len() ==> (#[trigger] grid@[i])@.len() == self.width,
                forall|i: int, j: int|
                    0 <= i < grid@.len() && 0 <= j < self.width ==> (#[trigger] grid@[i]@[j])
                        == TileIndex::Grass,
            decreases self.height - row_index,
        {
            let mut row: Vec<TileIndex> = Vec::new();
            let mut col_index: usize = 0;
            while col_index < self.width
                invariant
                    col_index <= self.width,
                    row@.len() == col_index,
                    forall|j: int| 0 <= j < row@.len() ==> (#[trigger] row@[j]) == TileIndex::Grass,
                decreases self.width - col_index,
            {
                row.push(TileIndex::Grass);
                col_index = col_index + 1;
            }
            grid.push(row);
            row_index = row_index + 1;
        }
        Ok(grid)
    }
}

/// The tile a 2x2 block of the map describes: block `(r, c)` reads the map
/// characters at rows `2r, 2r+1` and columns `2c, 2c+1`.
pub open spec fn spec_block_tile(lines: Seq<Vec<char>>, r: int, c: int) -> Option<TileIndex> {
    spec_tile_for(
        lines[2 * r]@[2 * c],
        lines[2 * r]@[2 * c + 1],
        lines[2 * r + 1]@[2 * c],
        lines[2 * r + 1]@[2 * c + 1],
    )
}

/// When a saved map can be laid over the base grid: the map is a non-empty
/// rectangle with even sides, it fits inside the base grid at the given
/// offset, and every 2x2 block describes a known tile.
pub open spec fn overlay_ok(
    base: Seq<Vec<TileIndex>>,
    lines: Seq<Vec<char>>,
    base_row: int,
    base_col: int,
) -> bool {
    &&& lines.len() > 0
    &&& lines[0]@.len() > 0
    &&& lines.len() % 2 == 0
    &&& lines[0]@.len() % 2 == 0
    &&& forall|r: int| 0 <= r < lines.len() ==> (#[trigger] lines[r])@.len() == lines[0]@.len()
    &&& base_row + lines.len() / 2 <= base.len()
    &&& forall|r: int|
        0 <= r < lines.len() / 2 ==> base_col + lines[0]@.len() / 2 <= (#[trigger] base[base_row
            + r])@.len()
    &&& forall|r: int, c: int|
        0 <= r < lines.len() / 2 && 0 <= c < lines[0]@.len() / 2 ==> (#[trigger] spec_block_tile(
            lines,
            r,
            c,
        )) is Some
}

/// Overwrite one tile of the grid.
fn set_tile(map: &mut Vec<Vec<TileIndex>>, i: usize, j: usize, t: TileIndex)
    requires
        i < old(map)@.len(),
        j < old(map)@[i as int]@.len(),
    ensures
        final(map)@.len() == old(map)@.len(),
        final(map)@[i as int]@ =~= old(map)@[i as int]@.update(j as int, t),
        forall|k: int| 0 <= k < old(map)@.len() && k != i ==> final(map)@[k] == old(map)@[k],
{
    let row = &mut map[i];
    row[j] = t;
}

/// Lay a saved map over the base tile grid: each 2x2 block of map characters
/// becomes one tile, written at the block's position shifted by
/// `(base_row, base_col)`; every other tile keeps its value. Rejected when
/// the map is empty, not an even-sided rectangle, does not fit inside the
/// grid at that offset, or holds a block that describes no tile.
pub fn overlay_map(
    base: Vec<Vec<TileIndex>>,
    lines: &Vec<Vec<char>>,
    base_row: usize,
    base_col: usize,
) -> (res: Result<Vec<Vec<TileIndex>>, GameError>)
    ensures
        match res {
            Ok(out) => {
                &&& overlay_ok(base@, lines@, base_row as int, base_col as int)
                &&& out@.len() == base@.len()
                &&& forall|i: int|
                    0 <= i < out@.len() ==> (#[trigger] out@[i])@.len() == base@[i]@.len()
                &&& forall|i: int, j: int|
                    0 <= i < out@.len() && 0 <= j < out@[i]@.len() && !(base_row <= i < base_row
                        + lines@.len() / 2 && base_col <= j < base_col + lines@[0]@.len() / 2)
                        ==> (#[trigger] out@[i]@[j]) == base@[i]@[j]
                &&& forall|r: int, c: int|
                    0 <= r < lines@.len() / 2 && 0 <= c < lines@[0]@.len() / 2 ==> {
                        &&& (#[trigger] spec_block_tile(lines@, r, c)) matches Some(t)
                        &&& out@[base_row + r]@[base_col + c] == t
                    }
            },
            Err(_) => !overlay_ok(base@, lines@, base_row as int, base_col as int),
        },
{
    let ghost base0 = base@;
    let height = lines.len();
    if height == 0 {
        return Err(GameError::new("Map was empty".to_owned()));
    }
    let width = lines[0].len();
    if width == 0 {
        return Err(GameError::new("Width of the map is 0".to_owned()));
    }
    if height % 2 != 0 || width % 2 != 0 {
        return Err(GameError::new("Map does not have even dimensions".to_owned()));
    }
    let mut r: usize = 0;
    while r < height
        invariant
            height == lines@.len(),
            width == lines@[0]@.len(),
            r <= height,
            forall|k: int| 0 <= k < r ==> (#[trigger] lines@[k])@.len() == width,
        decreases height - r,
    {
        if lines[r].len() != width {
            return Err(GameError::new("Map is not rectangular".to_owned()));
        }
        r = r + 1;
    }
    if base_row > base.len() || base.len() - base_row < height / 2 {
        return Err(GameError::new("Map does not fit the world vertically".to_owned()));
    }
    let mut rr: usize = 0;
    while rr < height / 2
        invariant
            height == lines@.len(),
            width == lines@[0]@.len(),
            base_row + height / 2 <= base@.len(),
            base@.len() <= usize::MAX,
            rr <= height / 2,
            rr > 0 ==> base_col + width / 2 <= usize::MAX,
            forall|k: int|
                0 <= k < rr ==> base_col + width / 2 <= (#[trigger] base@[base_row + k])@.len(),
        decreases height / 2 - rr,
    {
        let row_len = base[base_row + rr].len();
        if base_col > row_len || row_len - base_col < width / 2 {
            return Err(GameError::new("Map does not fit the world horizontally".to_owned()));
        }
        rr = rr + 1;
    }

    let mut base = base;
    let mut br: usize = 0;
    while br < height / 2
        invariant
            height == lines@.len(),
            width == lines@[0]@.len(),
            height % 2 == 0,
            width % 2 == 0,
            height > 0,
            width > 0,
            forall|k: int| 0 <= k < height ==> (#[trigger] lines@[k])@.len() == width,
            base_row + height / 2 <= base0.len(),
            base0.len() <= usize::MAX,
            base_col + width / 2 <= usize::MAX,
            forall|k: int|
                0 <= k < height / 2 ==> base_col + width / 2 <= (#[trigger] base0[base_row
                    + k])@.len(),
            br <= height / 2,
            base@.len() == base0.len(),
            forall|i: int| 0 <= i < base@.len() ==> (#[trigger] base@[i])@.len() == base0[i]@.len(),
            forall|i: int, j: int|
                0 <= i < base@.len() && 0 <= j < base@[i]@.len() && !(base_row <= i < base_row + br
                    && base_col <= j < base_col + width / 2) ==> (#[trigger] base@[i]@[j])
                    == base0[i]@[j],
            forall|r2: int, c2: int|
                0 <= r2 < br && 0 <= c2 < width / 2 ==> {
                    &&& (#[trigger] spec_block_tile(lines@, r2, c2)) matches Some(t)
                    &&& base@[base_row + r2]@[base_col + c2] == t
                },
        decreases height / 2 - br,
    {
        let mut bc: usize = 0;
        while bc < width / 2
            invariant
                height == lines@.len(),
                width == lines@[0]@.len(),
                height % 2 == 0,
                width % 2 == 0,
                height > 0,
                width > 0,
                forall|k: int| 0 <= k < height ==> (#[trigger] lines@[k])@.len() == width,
                base_row + height / 2 <= base0.len(),
                base0.len() <= usize::MAX,
                base_col + width / 2 <= usize::MAX,
                forall|k: int|
                    0 <= k < height / 2 ==> base_col + width / 2 <= (#[trigger] base0[base_row
                        + k])@.len(),
                br < height / 2,
                bc <= width / 2,
                base@.len() == base0.len(),
                forall|i: int|
                    0 <= i < base@.len() ==> (#[trigger] base@[i])@.len() == base0[i]@.len(),
                forall|i: int, j: int|
                    0 <= i < base@.len() && 0 <= j < base@[i]@.len() && !(base_row <= i < base_row
                        + br && base_col <= j < base_col + width / 2) && !(i == base_row + br
                        && base_col <= j < base_col + bc) ==> (#[trigger] base@[i]@[j])
                        == base0[i]@[j],
                forall|r2: int, c2: int|
                    0 <= r2 < br && 0 <= c2 < width / 2 ==> {
                        &&& (#[trigger] spec_block_tile(lines@, r2, c2)) matches Some(t)
                        &&& base@[base_row + r2]@[base_col + c2] == t
                    },
                forall|c2: int|
                    0 <= c2 < bc ==> {
                        &&& (#[trigger] spec_block_tile(lines@, br as int, c2)) matches Some(t)
                        &&& base@[base_row + br]@[base_col + c2] == t
                    },
            decreases width / 2 - bc,
        {
            let top_left = lines[2 * br][2 * bc];
            let top_right = lines[2 * br][2 * bc + 1];
            let bottom_left = lines[2 * br + 1][2 * bc];
            let bottom_right = lines[2 * br + 1][2 * bc + 1];
            let tile = match TileIndex::new(top_left, top_right, bottom_left, bottom_right) {
                Ok(t) => t,
                Err(e) => {
                    // this block describes no tile, so the overlay as a
                    // whole is rejected
                    assert(spec_block_tile(lines@, br as int, bc as int) is None);
                    return Err(e);
                },
            };
            set_tile(&mut base, base_row + br, base_col + bc, tile);
            bc = bc + 1;
        }
        br = br + 1;
    }
    Ok(base)
}

} // verus!
