//! The text format of a level: rows of whitespace-separated tile numbers.
//!
//! Each line of the text is one row of the grid, top row first. A tile is a
//! decimal number from 0 to 255, with an optional leading `+`. Blanks, tabs,
//! form feeds and carriage returns separate tiles; a newline ends a row. The
//! last row needs no newline.

use vstd::prelude::*;

verus! {

pub const NEWLINE: u8 = 0x0a;

/// What can be wrong with a level.
#[derive(Clone, Copy, Debug, PartialEq, Eq, Structural)]
pub enum LevelError {
    /// Some word of the text is not a number from 0 to 255.
    MalformedTile,
    /// The text holds no tile at all.
    NoTileData,
    /// Two rows differ in length.
    RaggedRows,
    /// The level holds a brick whose texture has not been loaded.
    TextureNotLoaded,
}

/// ASCII whitespace: blank, tab, newline, form feed, carriage return.
pub open spec fn is_space(b: u8) -> bool {
    b == 0x20 || b == 0x09 || b == 0x0a || b == 0x0c || b == 0x0d
}

pub open spec fn is_digit(b: u8) -> bool {
    0x30 <= b <= 0x39
}

/// The number that a string of decimal digits stands for.
pub open spec fn decimal(digits: Seq<u8>) -> nat
    decreases digits.len(),
{
    if digits.len() == 0 {
        0
    } else {
        (decimal(digits.drop_last()) * 10 + (digits.last() - 0x30)) as nat
    }
}

/// The digits of a word: all of it but a leading `+`.
pub open spec fn digits_of(word: Seq<u8>) -> Seq<u8> {
    if word.len() > 0 && word[0] == 0x2b {
        word.skip(1)
    } else {
        word
    }
}

pub open spec fn all_digits(digits: Seq<u8>) -> bool {
    forall|i: int| 0 <= i < digits.len() ==> is_digit(#[trigger] digits[i])
}

/// The tile that a word stands for: one or more decimal digits, after an
/// optional `+`, that make a number of at most 255.
pub open spec fn tile_of(word: Seq<u8>) -> Option<u8> {
    let digits = digits_of(word);
    if digits.len() > 0 && all_digits(digits) && decimal(digits) <= 255 {
        Some(decimal(digits) as u8)
    } else {
        None
    }
}

/// The end of the word that holds position `from`: the first position at or
/// after `from`, short of `limit`, that holds whitespace, or else `limit`.
pub open spec fn word_end(text: Seq<u8>, from: int, limit: int) -> int
    decreases limit - from,
{
    if from >= limit || from < 0 || limit > text.len() {
        limit
    } else if is_space(text[from]) {
        from
    } else {
        word_end(text, from + 1, limit)
    }
}

/// The end of the line that holds position `from`: the position of the first
/// newline at or after `from`, or the length of the text.
pub open spec fn line_end(text: Seq<u8>, from: int) -> int
    decreases text.len() - from,
{
    if from >= text.len() || from < 0 {
        text.len() as int
    } else if text[from] == NEWLINE {
        from
    } else {
        line_end(text, from + 1)
    }
}

pub proof fn lemma_word_end_bounds(text: Seq<u8>, from: int, limit: int)
    requires
        0 <= from <= limit <= text.len(),
    ensures
        from <= word_end(text, from, limit) <= limit,
        forall|i: int| from <= i < word_end(text, from, limit) ==> !is_space(#[trigger] text[i]),
        word_end(text, from, limit) < limit ==> is_space(text[word_end(text, from, limit)]),
    decreases limit - from,
{
    if from < limit && !is_space(text[from]) {
        lemma_word_end_bounds(text, from + 1, limit);
    }
}

pub proof fn lemma_line_end_bounds(text: Seq<u8>, from: int)
    requires
        0 <= from <= text.len(),
    ensures
        from <= line_end(text, from) <= text.len(),
        forall|i: int| from <= i < line_end(text, from) ==> #[trigger] text[i] != NEWLINE,
        line_end(text, from) < text.len() ==> text[line_end(text, from)] == NEWLINE,
    decreases text.len() - from,
{
    if from < text.len() && text[from] != NEWLINE {
        lemma_line_end_bounds(text, from + 1);
    }
}

/// The tiles of the words in `text[from..limit]`, in order; `None` if one of
/// the words is no tile.
pub open spec fn row_tiles(text: Seq<u8>, from: int, limit: int) -> Option<Seq<u8>>
    decreases limit - from,
{
    if from >= limit || from < 0 || limit > text.len() {
        Some(Seq::empty())
    } else if is_space(text[from]) {
        row_tiles(text, from + 1, limit)
    } else {
        let stop = word_end(text, from + 1, limit);
        proof {
            lemma_word_end_bounds(text, from + 1, limit);
        }
        match (tile_of(text.subrange(from, stop)), row_tiles(text, stop, limit)) {
            (Some(tile), Some(rest)) => Some(seq![tile] + rest),
            _ => None,
        }
    }
}

/// The rows of the lines of `text` that start at or after `from`, in order;
/// `None` if one of them holds a word that is no tile. A newline at the very
/// end of the text starts no further row.
pub open spec fn rows_from(text: Seq<u8>, from: int) -> Option<Seq<Seq<u8>>>
    decreases text.len() - from,
{
    if from >= text.len() || from < 0 {
        Some(Seq::empty())
    } else {
        let end = line_end(text, from);
        proof {
            lemma_line_end_bounds(text, from);
        }
        let rest = if end < text.len() {
            rows_from(text, end + 1)
        } else {
            Some(Seq::empty())
        };
        match (row_tiles(text, from, end), rest) {
            (Some(row), Some(rest)) => Some(seq![row] + rest),
            _ => None,
        }
    }
}

/// No row holds a tile.
pub open spec fn no_tiles(grid: Seq<Seq<u8>>) -> bool {
    forall|r: int| 0 <= r < grid.len() ==> (#[trigger] grid[r]).len() == 0
}

/// All rows have the length of the first.
pub open spec fn rectangular(grid: Seq<Seq<u8>>) -> bool {
    forall|r: int| 0 <= r < grid.len() ==> (#[trigger] grid[r]).len() == grid[0].len()
}

/// The grid that a level text describes, or why it describes none.
pub open spec fn tile_grid(text: Seq<u8>) -> Result<Seq<Seq<u8>>, LevelError> {
    match rows_from(text, 0) {
        None => Err(LevelError::MalformedTile),
        Some(grid) => if no_tiles(grid) {
            Err(LevelError::NoTileData)
        } else if !rectangular(grid) {
            Err(LevelError::RaggedRows)
        } else {
            Ok(grid)
        },
    }
}

/// A grid that is accepted has a first row, that row has a tile, and every
/// row is as long as it.
pub proof fn lemma_accepted_grid_shape(text: Seq<u8>)
    requires
        tile_grid(text) is Ok,
    ensures
        tile_grid(text)->Ok_0.len() > 0,
        tile_grid(text)->Ok_0[0].len() > 0,
        rectangular(tile_grid(text)->Ok_0),
{
    let grid = tile_grid(text)->Ok_0;
    if grid.len() == 0 || grid[0].len() == 0 {
        assert forall|r: int| 0 <= r < grid.len() implies (#[trigger] grid[r]).len() == 0 by {}
    }
}

/// A stretch of whitespace holds no tile.
proof fn lemma_blank_row(text: Seq<u8>, from: int, limit: int)
    requires
        0 <= from <= limit <= text.len(),
        forall|i: int| from <= i < limit ==> is_space(#[trigger] text[i]),
    ensures
        row_tiles(text, from, limit) == Some(Seq::<u8>::empty()),
    decreases limit - from,
{
    if from < limit {
        lemma_blank_row(text, from + 1, limit);
    }
}

/// The rows of a text of whitespace hold no tile.
proof fn lemma_blank_rows(text: Seq<u8>, from: int)
    requires
        0 <= from <= text.len(),
        forall|i: int| 0 <= i < text.len() ==> is_space(#[trigger] text[i]),
    ensures
        rows_from(text, from) is Some,
        no_tiles(rows_from(text, from)->0),
    decreases text.len() - from,
{
    if from < text.len() {
        let end = line_end(text, from);
        lemma_line_end_bounds(text, from);
        lemma_blank_row(text, from, end);
        if end < text.len() {
            lemma_blank_rows(text, end + 1);
        }
    }
}

/// A text that is empty, or holds nothing but whitespace, is refused for
/// want of tiles.
pub proof fn lemma_blank_text_is_refused(text: Seq<u8>)
    requires
        forall|i: int| 0 <= i < text.len() ==> is_space(#[trigger] text[i]),
    ensures
        tile_grid(text) == Err::<Seq<Seq<u8>>, LevelError>(LevelError::NoTileData),
{
    lemma_blank_rows(text, 0);
}

/// What a grid held in vectors stands for.
pub open spec fn grid_view(grid: &Vec<Vec<u8>>) -> Seq<Seq<u8>> {
    Seq::new(grid@.len(), |r: int| grid@[r]@)
}

/// `head` put in front of `tail`, where there is a tail.
pub open spec fn prepend<T>(head: Seq<T>, tail: Option<Seq<T>>) -> Option<Seq<T>> {
    match tail {
        Some(rest) => Some(head + rest),
        None => None,
    }
}

/// Among digits, a number is at least the number that any of its prefixes makes.
proof fn lemma_decimal_grows(digits: Seq<u8>, k: int)
    requires
        0 <= k <= digits.len(),
        all_digits(digits),
    ensures
        decimal(digits.take(k)) <= decimal(digits),
    decreases digits.len(),
{
    if k == digits.len() {
        assert(digits.take(k) =~= digits);
    } else {
        let shorter = digits.drop_last();
        lemma_decimal_grows(shorter, k);
        assert(shorter.take(k) =~= digits.take(k));
    }
}

fn is_space_byte(b: u8) -> (space: bool)
    ensures
        space == is_space(b),
{
    b == 0x20 || b == 0x09 || b == 0x0a || b == 0x0c || b == 0x0d
}

/// Reads the word `text[from..stop]` as a tile.
fn read_tile(text: &[u8], from: usize, stop: usize) -> (tile: Option<u8>)
    requires
        from < stop <= text@.len(),
    ensures
        tile == tile_of(text@.subrange(from as int, stop as int)),
{
    let ghost word = text@.subrange(from as int, stop as int);
    let first: usize = if text[from] == 0x2b {
        from + 1
    } else {
        from
    };
    let ghost digits = text@.subrange(first as int, stop as int);
    assert(digits =~= digits_of(word));
    if first == stop {
        return None;
    }
    let mut value: u16 = 0;
    let mut i: usize = first;
    while i < stop
        invariant
            first <= i <= stop <= text@.len(),
            digits == text@.subrange(first as int, stop as int),
            digits == digits_of(text@.subrange(from as int, stop as int)),
            all_digits(digits.take(i - first)),
            value == decimal(digits.take(i - first)),
            value <= 255,
        decreases stop - i,
    {
        let b: u8 = text[i];
        if b < 0x30 || b > 0x39 {
            assert(!is_digit(digits[i - first]));
            return None;
        }
        let ghost longer = digits.take(i - first + 1);
        assert(longer.drop_last() =~= digits.take(i - first));
        assert(longer.last() == b);
        assert(all_digits(longer)) by {
            assert forall|k: int| 0 <= k < longer.len() implies is_digit(#[trigger] longer[k]) by {
                if k < i - first {
                    assert(longer[k] == digits.take(i - first)[k]);
                }
            }
        }
        value = value * 10 + (b - 0x30) as u16;
        assert(value == decimal(longer));
        if value > 255 {
            proof {
                if all_digits(digits) {
                    lemma_decimal_grows(digits, i - first + 1);
                }
            }
            return None;
        }
        i += 1;
    }
    assert(digits.take(i - first) =~= digits);
    Some(value as u8)
}

/// Reads the words of `text[from..limit]` as the tiles of one row.
fn read_row(text: &[u8], from: usize, limit: usize) -> (row: Option<Vec<u8>>)
    requires
        from <= limit <= text@.len(),
    ensures
        match row {
            Some(tiles) => row_tiles(text@, from as int, limit as int) == Some(tiles@),
            None => row_tiles(text@, from as int, limit as int) is None,
        },
{
    let mut tiles: Vec<u8> = Vec::new();
    let mut i: usize = from;
    assert(tiles@ + row_tiles(text@, from as int, limit as int)->0 =~= row_tiles(
        text@,
        from as int,
        limit as int,
    )->0);
    while i < limit
        invariant
            from <= i <= limit <= text@.len(),
            row_tiles(text@, from as int, limit as int) == prepend(
                tiles@,
                row_tiles(text@, i as int, limit as int),
            ),
        decreases limit - i,
    {
        if is_space_byte(text[i]) {
            i += 1;
        } else {
            let mut stop: usize = i + 1;
            while stop < limit && !is_space_byte(text[stop])
                invariant
                    i < stop <= limit <= text@.len(),
                    word_end(text@, i + 1, limit as int) == word_end(
                        text@,
                        stop as int,
                        limit as int,
                    ),
                decreases limit - stop,
            {
                stop += 1;
            }
            assert(stop == word_end(text@, i + 1, limit as int));
            match read_tile(text, i, stop) {
                None => {
                    return None;
                },
                Some(tile) => {
                    let ghost before = tiles@;
                    tiles.push(tile);
                    proof {
                        let rest = row_tiles(text@, stop as int, limit as int);
                        if rest is Some {
                            assert(before + (seq![tile] + rest->0) =~= tiles@ + rest->0);
                        }
                    }
                    i = stop;
                },
            }
        }
    }
    assert(tiles@ + Seq::<u8>::empty() =~= tiles@);
    Some(tiles)
}

/// Whether no row of the grid holds a tile.
fn has_no_tiles(grid: &Vec<Vec<u8>>) -> (none: bool)
    ensures
        none == no_tiles(grid_view(grid)),
{
    let mut r: usize = 0;
    while r < grid.len()
        invariant
            r <= grid@.len(),
            forall|k: int| 0 <= k < r ==> (#[trigger] grid_view(grid)[k]).len() == 0,
        decreases grid@.len() - r,
    {
        if grid[r].len() != 0 {
            assert(grid_view(grid)[r as int].len() != 0);
            return false;
        }
        r += 1;
    }
    true
}

/// Whether all rows of the grid have the length of the first.
fn is_rectangular(grid: &Vec<Vec<u8>>) -> (even: bool)
    ensures
        even == rectangular(grid_view(grid)),
{
    let mut r: usize = 0;
    while r < grid.len()
        invariant
            r <= grid@.len(),
            forall|k: int| 0 <= k < r ==> (#[trigger] grid_view(grid)[k]).len() == grid_view(grid)[0].len(),
        decreases grid@.len() - r,
    {
        if grid[r].len() != grid[0].len() {
            assert(grid_view(grid)[r as int].len() != grid_view(grid)[0].len());
            return false;
        }
        r += 1;
    }
    true
}

/// Reads a level text into its grid of tiles.
///
/// The text is refused when a word of it is no tile, when it holds no tile
/// at all, and when its rows differ in length, in this order of precedence.
pub fn parse_tiles(text: &[u8]) -> (parsed: Result<Vec<Vec<u8>>, LevelError>)
    ensures
        match parsed {
            Ok(grid) => tile_grid(text@) == Ok::<Seq<Seq<u8>>, LevelError>(grid_view(&grid)),
            Err(error) => tile_grid(text@) == Err::<Seq<Seq<u8>>, LevelError>(error),
        },
{
    let mut grid: Vec<Vec<u8>> = Vec::new();
    let mut start: usize = 0;
    assert(grid_view(&grid) + rows_from(text@, 0)->0 =~= rows_from(text@, 0)->0);
    while start < text.len()
        invariant
            start <= text@.len(),
            rows_from(text@, 0) == prepend(grid_view(&grid), rows_from(text@, start as int)),
        decreases text@.len() - start,
    {
        let mut end: usize = start;
        while end < text.len() && text[end] != NEWLINE
            invariant
                start <= end <= text@.len(),
                line_end(text@, start as int) == line_end(text@, end as int),
            decreases text@.len() - end,
        {
            end += 1;
        }
        assert(end == line_end(text@, start as int));
        match read_row(text, start, end) {
            None => {
                return Err(LevelError::MalformedTile);
            },
            Some(row) => {
                let ghost before = grid_view(&grid);
                let ghost row_view = row@;
                grid.push(row);
                let next: usize = if end < text.len() {
                    end + 1
                } else {
                    end
                };
                proof {
                    assert(grid_view(&grid) =~= before.push(row_view));
                    let rest = rows_from(text@, next as int);
                    if rest is Some {
                        assert(before + (seq![row_view] + rest->0) =~= grid_view(&grid) + rest->0);
                    }
                }
                start = next;
            },
        }
    }
    assert(grid_view(&grid) + Seq::<Seq<u8>>::empty() =~= grid_view(&grid));
    if has_no_tiles(&grid) {
        Err(LevelError::NoTileData)
    } else if !is_rectangular(&grid) {
        Err(LevelError::RaggedRows)
    } else {
        Ok(grid)
    }
}

} // verus!
