//! The document: the text that is typed into, and the markers on its rows.
//!
//! Places in the text are offsets in characters. A position names a row
//! and a column; columns count display widths.

use crate::text::{
    chars_of, lemma_line_stop, lemma_skip_rows, line_stop, row_start, start_of_row, string_of,
};
use crate::ui::geometry::{Pos, Region};
use crate::ui::markers::{
    generate, lookup, merged, scanned, shift_from, sorted, Marker, MarkerView, Markers,
};
use crate::width::{char_width, columns};
use vstd::prelude::*;

verus! {

// -----------------------------------------------------------------------------
//   - Places in a text -
// -----------------------------------------------------------------------------
/// Walks the line from `i` on, where the characters before `i` take `x`
/// columns: the offset behind the first character with which the line
/// takes `col` columns or more, or the end of the line.
pub open spec fn column_offset(text: Seq<char>, i: int, x: int, col: int) -> int
    decreases text.len() - i,
{
    if i < 0 || i >= text.len() || text[i] == '\n' {
        i
    } else if x + columns(text[i]) >= col {
        i + 1
    } else {
        column_offset(text, i + 1, x + columns(text[i]), col)
    }
}

/// The offset of a position: the start of its row for the column zero, else
/// the offset behind the character that reaches the column.
pub open spec fn offset_of(text: Seq<char>, pos: Pos) -> int {
    let start = row_start(text, pos.y as int);
    if pos.x == 0 {
        start
    } else {
        column_offset(text, start, 0, pos.x as int)
    }
}

/// What is left of a budget of columns once `c` is paid for.
pub open spec fn budget_after(budget: nat, c: char) -> nat {
    if budget >= columns(c) {
        (budget - columns(c)) as nat
    } else {
        0
    }
}

/// The end of the stretch that is cut out from `start` on with a budget of
/// columns: it ends before a line feed, or before the character that uses
/// the budget up. Where the text ends first, nothing is cut.
pub open spec fn cut_end(text: Seq<char>, start: int, i: int, budget: nat) -> int
    decreases text.len() - i,
{
    if i < 0 || i >= text.len() {
        start
    } else if text[i] == '\n' || budget_after(budget, text[i]) == 0 {
        i
    } else {
        cut_end(text, start, i + 1, budget_after(budget, text[i]))
    }
}

/// The columns that a region gives to cut on each of its rows: its width and one.
pub open spec fn cut_budget(region: Region) -> nat {
    if 1 + region.to.x - region.from.x < 0 {
        0
    } else {
        held((1 + region.to.x - region.from.x) as nat) as nat
    }
}

/// The text without what `budget` columns cut out of it at `pos`.
pub open spec fn cut_row(text: Seq<char>, pos: Pos, budget: nat) -> Seq<char> {
    let start = offset_of(text, pos);
    let end = cut_end(text, start, start, budget);
    text.take(start) + text.skip(end)
}

/// The text without what the region cuts out of its rows, from the row `y` on.
pub open spec fn cut_rows(text: Seq<char>, region: Region, y: int) -> Seq<char>
    decreases region.to.y - y,
{
    if y >= region.to.y {
        text
    } else {
        cut_rows(
            cut_row(text, Pos { x: region.from.x, y: y as i32 }, cut_budget(region)),
            region,
            y + 1,
        )
    }
}

/// The text without what the region cuts out of it.
pub open spec fn cut_region(text: Seq<char>, region: Region) -> Seq<char> {
    cut_rows(text, region, region.from.y as int)
}

/// The number of line feeds in `s`.
pub open spec fn newlines(s: Seq<char>) -> nat
    decreases s.len(),
{
    if s.len() == 0 {
        0
    } else {
        newlines(s.drop_last()) + if s.last() == '\n' {
            1nat
        } else {
            0nat
        }
    }
}

/// The columns that `s` takes, character by character.
pub open spec fn width_of(s: Seq<char>) -> nat
    decreases s.len(),
{
    if s.len() == 0 {
        0
    } else {
        width_of(s.drop_last()) + columns(s.last())
    }
}

/// Whether `needle` stands in `text` at `i`, before `end`.
pub open spec fn matches_at(text: Seq<char>, end: int, needle: Seq<char>, i: int) -> bool {
    0 <= i && i + needle.len() <= end <= text.len() && text.subrange(i, i + needle.len())
        == needle
}

/// The first offset at or behind `i` at which `needle` stands before `end`.
pub open spec fn first_match(text: Seq<char>, end: int, needle: Seq<char>, i: int) -> Option<
    int,
>
    decreases end - i,
{
    if i < 0 || i + needle.len() > end || end > text.len() {
        None
    } else if matches_at(text, end, needle, i) {
        Some(i)
    } else if i >= end {
        None
    } else {
        first_match(text, end, needle, i + 1)
    }
}

/// The column at which `needle` first stands on the row `row`: the columns
/// that the line takes before it. None where it does not stand there.
pub open spec fn found_column(text: Seq<char>, row: int, needle: Seq<char>) -> Option<nat> {
    let start = row_start(text, row);
    let end = line_stop(text, start);
    match first_match(text, end, needle, start) {
        Some(at) => Some(width_of(text.subrange(start, at))),
        None => None,
    }
}

/// A column lies inside the text, at or behind where the walk began.
pub proof fn lemma_column_offset(text: Seq<char>, i: int, x: int, col: int)
    requires
        0 <= i <= text.len(),
    ensures
        i <= column_offset(text, i, x, col) <= text.len(),
    decreases text.len() - i,
{
    if i < text.len() && text[i] != '\n' && x + columns(text[i]) < col {
        lemma_column_offset(text, i + 1, x + columns(text[i]), col);
    }
}

/// A position lies inside the text.
pub proof fn lemma_offset_of(text: Seq<char>, pos: Pos)
    ensures
        0 <= offset_of(text, pos) <= text.len(),
{
    if pos.y >= 0 {
        lemma_skip_rows(text, 0, pos.y as int);
    }
    lemma_column_offset(text, row_start(text, pos.y as int), 0, pos.x as int);
}

/// A cut ends inside the text, at or behind where it starts.
pub proof fn lemma_cut_end(text: Seq<char>, start: int, i: int, budget: nat)
    requires
        0 <= start <= i <= text.len(),
    ensures
        start <= cut_end(text, start, i, budget) <= text.len(),
    decreases text.len() - i,
{
    if i < text.len() && text[i] != '\n' && budget_after(budget, text[i]) != 0 {
        lemma_cut_end(text, start, i + 1, budget_after(budget, text[i]));
    }
}

// -----------------------------------------------------------------------------
//   - The document -
// -----------------------------------------------------------------------------
// NOTE:
// Document ONLY needs to regenerate the markers when
// adding text that contains one or more markers!
/// A text and the markers on its rows.
#[derive(Debug)]
pub struct Document {
    pub markers: Markers,
    text: Vec<char>,
}

/// What a [`Document`] stands for.
pub struct DocumentView {
    pub text: Seq<char>,
    pub markers: Seq<MarkerView>,
}

impl View for Document {
    type V = DocumentView;

    closed spec fn view(&self) -> DocumentView {
        DocumentView { text: self.text@, markers: self.markers@ }
    }
}

impl Document {
    /// The document of `text`: its marker lines become the markers.
    pub fn new(text: &str) -> (out: Self)
        ensures
            out@.text == scanned(text@).content,
            out@.markers == scanned(text@).markers,
            sorted(out@.markers),
    {
        let (content, markers) = generate(text);
        let markers = match markers {
            Some(markers) => markers,
            None => {
                let none = Markers::new();
                assert(none@ =~= scanned(text@).markers);
                none
            },
        };
        Self { text: chars_of(content.as_str()), markers }
    }

    /// Merges a batch of markers in at the row `row`.
    pub fn add_markers(&mut self, row: usize, markers: Markers)
        ensures
            final(self)@.text == old(self)@.text,
            final(self)@.markers == merged(old(self)@.markers, row as nat, markers@),
    {
        self.markers.merge(row, markers);
    }

    /// The text of the document.
    pub fn text(&self) -> (text: String)
        ensures
            text@ == self@.text,
    {
        let len = self.text.len();
        let text = string_of(&self.text, 0, len);
        assert(self.text@.subrange(0, len as int) =~= self.text@);
        text
    }

    /// The first marker called `key`.
    pub fn lookup_marker(&self, key: &str) -> (out: Option<&Marker>)
        ensures
            match lookup(self@.markers, key@) {
                Some(marker) => out matches Some(m) && m@ == marker,
                None => out is None,
            },
    {
        self.markers.get(key)
    }

    /// Computes [`row_start`].
    fn start_of_row(&self, row: i32) -> (out: usize)
        ensures
            out == row_start(self@.text, row as int),
            out <= self@.text.len(),
    {
        if row < 0 {
            return self.text.len();
        }
        start_of_row(&self.text, row as usize)
    }

    /// The offset of `pos` in the text.
    fn offset(&self, pos: Pos) -> (out: usize)
        ensures
            out == offset_of(self@.text, pos),
            out <= self@.text.len(),
    {
        let line_offset = self.start_of_row(pos.y);
        if pos.x == 0 {
            return line_offset;
        }
        let mut x: i64 = 0;
        let mut i = line_offset;
        proof {
            lemma_column_offset(self.text@, line_offset as int, 0, pos.x as int);
        }
        while i < self.text.len() && self.text[i] != '\n'
            invariant
                line_offset <= i <= self.text.len(),
                0 <= x <= i32::MAX,
                pos.x != 0,
                line_offset == row_start(self@.text, pos.y as int),
                column_offset(self.text@, line_offset as int, 0, pos.x as int) == column_offset(
                    self.text@,
                    i as int,
                    x as int,
                    pos.x as int,
                ),
            decreases self.text.len() - i,
        {
            let c = self.text[i];
            let w = match char_width(c) {
                Some(w) => w,
                None => 0,
            };
            if pos.x < 0 || x + w as i64 >= pos.x as i64 {
                return i + 1;
            }
            x += w as i64;
            i += 1;
        }
        i
    }

    /// Puts `s` into the text at `pos`, and moves the markers on the row
    /// of `pos` and behind it down by the line feeds in `s`.
    pub fn insert_str(&mut self, pos: Pos, s: &str)
        ensures
            final(self)@.text == old(self)@.text.take(offset_of(old(self)@.text, pos)) + s@
                + old(self)@.text.skip(offset_of(old(self)@.text, pos)),
            final(self)@.markers == if newlines(s@) > 0 {
                shift_from(old(self)@.markers, (pos.y as usize) as nat, newlines(s@))
            } else {
                old(self)@.markers
            },
            sorted(old(self)@.markers) ==> sorted(final(self)@.markers),
    {
        let index = self.offset(pos);
        let mut added = chars_of(s);
        // If the string contains a newline character then offset all the markers by one
        let mut count: usize = 0;
        let mut k: usize = 0;
        while k < added.len()
            invariant
                k <= added.len(),
                count <= k,
                count == newlines(added@.take(k as int)),
            decreases added.len() - k,
        {
            assert(added@.take(k + 1).drop_last() =~= added@.take(k as int));
            if added[k] == '\n' {
                count += 1;
            }
            k += 1;
        }
        assert(added@.take(k as int) =~= added@);
        let mut tail = self.text.split_off(index);
        self.text.append(&mut added);
        self.text.append(&mut tail);
        assert(self.text@ =~= old(self)@.text.take(index as int) + s@ + old(self)@.text.skip(
            index as int,
        ));
        if count > 0 {
            self.markers.offset_after(#[verifier::truncate] (pos.y as usize), count);
        }
    }

    /// The stretch that `width` columns cut out at `pos`: where it starts,
    /// and where it ends.
    pub fn offsets(&self, pos: Pos, width: usize) -> (out: (usize, usize))
        ensures
            out.0 == offset_of(self@.text, pos),
            out.1 == cut_end(self@.text, out.0 as int, out.0 as int, width as nat),
            out.0 <= out.1 <= self@.text.len(),
    {
        let start = self.offset(pos);
        let mut left = width;
        let mut i = start;
        proof {
            lemma_cut_end(self.text@, start as int, start as int, width as nat);
        }
        while i < self.text.len()
            invariant
                start <= i <= self.text.len(),
                start == offset_of(self@.text, pos),
                cut_end(self.text@, start as int, start as int, width as nat) == cut_end(
                    self.text@,
                    start as int,
                    i as int,
                    left as nat,
                ),
            decreases self.text.len() - i,
        {
            let c = self.text[i];
            if c == '\n' {
                return (start, i);
            }
            let w = match char_width(c) {
                Some(w) => w,
                None => 0,
            };
            left = left.saturating_sub(w);
            if left == 0 {
                return (start, i);
            }
            i += 1;
        }
        (start, start)
    }

    /// Cuts the region out of the text, row by row.
    pub fn delete(&mut self, region: Region)
        ensures
            final(self)@.text == cut_region(old(self)@.text, region),
            final(self)@.markers == old(self)@.markers,
    {
        let wide: i64 = 1 + region.to.x as i64 - region.from.x as i64;
        let width: usize = if wide < 0 {
            0
        } else if wide as u64 > usize::MAX as u64 {
            usize::MAX
        } else {
            wide as usize
        };
        let mut y = region.from.y;
        while y < region.to.y
            invariant
                region.from.y <= y || region.from.y >= region.to.y,
                width == cut_budget(region),
                self@.markers == old(self)@.markers,
                cut_region(old(self)@.text, region) == cut_rows(self@.text, region, y as int),
            decreases region.to.y - y,
        {
            let pos = Pos::new(region.from.x, y);
            let (start, end) = self.offsets(pos, width);
            let ghost before = self.text@;
            let mut tail = self.text.split_off(end);
            self.text.truncate(start);
            self.text.append(&mut tail);
            assert(self.text@ =~= before.take(start as int) + before.skip(end as int));
            y += 1;
        }
    }

    /// The column at which `needle` first stands on the row of `cursor`.
    pub fn find(&self, cursor: Pos, needle: &str) -> (out: Option<usize>)
        ensures
            match found_column(self@.text, cursor.y as int, needle@) {
                Some(column) => out == Some(held(column)),
                None => out is None,
            },
    {
        let line_offset = self.start_of_row(cursor.y);
        let wanted = chars_of(needle);
        let mut end = line_offset;
        proof {
            lemma_line_stop(self.text@, line_offset as int);
        }
        while end < self.text.len() && self.text[end] != '\n'
            invariant
                line_offset <= end <= self.text.len(),
                line_stop(self.text@, line_offset as int) == line_stop(self.text@, end as int),
            decreases self.text.len() - end,
        {
            end += 1;
        }
        let mut at = line_offset;
        let mut column: usize = 0;
        assert(self.text@.subrange(line_offset as int, at as int) =~= Seq::<char>::empty());
        while wanted.len() <= end - at
            invariant
                line_offset <= at <= end <= self.text.len(),
                wanted@ == needle@,
                line_offset == row_start(self@.text, cursor.y as int),
                end == line_stop(self@.text, line_offset as int),
                column == held(width_of(self.text@.subrange(line_offset as int, at as int))),
                first_match(self.text@, end as int, needle@, line_offset as int) == first_match(
                    self.text@,
                    end as int,
                    needle@,
                    at as int,
                ),
            decreases end - at,
        {
            if self.stands_at(&wanted, at) {
                return Some(column);
            }
            proof {
                if wanted.len() == 0 {
                    assert(self.text@.subrange(at as int, at + wanted.len()) =~= wanted@);
                }
            }
            let w = match char_width(self.text[at]) {
                Some(w) => w,
                None => 0,
            };
            proof {
                assert(self.text@.subrange(line_offset as int, at + 1).drop_last()
                    =~= self.text@.subrange(line_offset as int, at as int));
            }
            column = column.saturating_add(w);
            at += 1;
        }
        None
    }

    /// Whether `wanted` stands in the text at `at`.
    fn stands_at(&self, wanted: &Vec<char>, at: usize) -> (b: bool)
        requires
            at + wanted.len() <= self@.text.len(),
        ensures
            b == (self@.text.subrange(at as int, at + wanted.len()) == wanted@),
    {
        let ghost part = self.text@.subrange(at as int, at + wanted.len());
        let mut k: usize = 0;
        while k < wanted.len()
            invariant
                k <= wanted.len(),
                at + wanted.len() <= self.text.len(),
                part == self.text@.subrange(at as int, at + wanted.len()),
                part.take(k as int) == wanted@.take(k as int),
            decreases wanted.len() - k,
        {
            if self.text[at + k] != wanted[k] {
                assert(part[k as int] != wanted@[k as int]);
                return false;
            }
            assert(part.take(k + 1) =~= part.take(k as int).push(part[k as int]));
            assert(wanted@.take(k + 1) =~= wanted@.take(k as int).push(wanted@[k as int]));
            k += 1;
        }
        assert(part.take(k as int) =~= part);
        assert(wanted@.take(k as int) =~= wanted@);
        true
    }

    /// Empties the text and drops the markers.
    pub fn clear(&mut self)
        ensures
            final(self)@.text == Seq::<char>::empty(),
            final(self)@.markers == Seq::<MarkerView>::empty(),
    {
        self.markers.clear();
        self.text.clear();
    }
}

/// `n`, held to what a `usize` can hold.
pub open spec fn held(n: nat) -> usize {
    if n > usize::MAX {
        usize::MAX
    } else {
        n as usize
    }
}

// -----------------------------------------------------------------------------
//   - Laws -
// -----------------------------------------------------------------------------
/// A region without rows cuts nothing.
pub proof fn lemma_cut_without_rows(text: Seq<char>, region: Region)
    requires
        region.from.y >= region.to.y,
    ensures
        cut_region(text, region) == text,
{
}

/// The line feeds of two texts in a row are those of the one and those of the other.
pub proof fn lemma_newlines_add(a: Seq<char>, b: Seq<char>)
    ensures
        newlines(a + b) == newlines(a) + newlines(b),
    decreases b.len(),
{
    if b.len() == 0 {
        assert(a + b =~= a);
    } else {
        lemma_newlines_add(a, b.drop_last());
        assert((a + b).drop_last() =~= a + b.drop_last());
    }
}

/// A text that holds no line feed counts none.
pub proof fn lemma_newlines_none(s: Seq<char>)
    requires
        forall|k: int| 0 <= k < s.len() ==> s[k] != '\n',
    ensures
        newlines(s) == 0,
    decreases s.len(),
{
    if s.len() > 0 {
        lemma_newlines_none(s.drop_last());
    }
}

/// A cut holds no line feed.
pub proof fn lemma_cut_holds_no_line_feed(text: Seq<char>, start: int, i: int, budget: nat)
    requires
        0 <= start <= i <= text.len(),
    ensures
        cut_end(text, start, i, budget) == start || (i <= cut_end(text, start, i, budget)
            && forall|k: int| i <= k < cut_end(text, start, i, budget) ==> text[k] != '\n'),
    decreases text.len() - i,
{
    if i < text.len() && text[i] != '\n' && budget_after(budget, text[i]) != 0 {
        lemma_cut_holds_no_line_feed(text, start, i + 1, budget_after(budget, text[i]));
    }
}

/// Cutting on one row removes no line feed.
pub proof fn lemma_cut_row_keeps_line_feeds(text: Seq<char>, pos: Pos, budget: nat)
    ensures
        newlines(cut_row(text, pos, budget)) == newlines(text),
        cut_row(text, pos, budget).len() <= text.len(),
{
    lemma_offset_of(text, pos);
    let start = offset_of(text, pos);
    lemma_cut_end(text, start, start, budget);
    lemma_cut_holds_no_line_feed(text, start, start, budget);
    let end = cut_end(text, start, start, budget);
    let cut = text.subrange(start, end);
    lemma_newlines_none(cut);
    assert(text =~= text.take(start) + cut + text.skip(end));
    lemma_newlines_add(text.take(start), cut);
    lemma_newlines_add(text.take(start) + cut, text.skip(end));
    lemma_newlines_add(text.take(start), text.skip(end));
}

/// Cutting a region out of a text removes no line feed: the text keeps its
/// rows, and grows no longer.
pub proof fn lemma_cut_keeps_line_feeds(text: Seq<char>, region: Region)
    ensures
        newlines(cut_region(text, region)) == newlines(text),
        cut_region(text, region).len() <= text.len(),
{
    lemma_cut_rows_keep_line_feeds(text, region, region.from.y as int);
}

/// Cutting a region out of a text from the row `y` on removes no line feed.
pub proof fn lemma_cut_rows_keep_line_feeds(text: Seq<char>, region: Region, y: int)
    ensures
        newlines(cut_rows(text, region, y)) == newlines(text),
        cut_rows(text, region, y).len() <= text.len(),
    decreases region.to.y - y,
{
    if y < region.to.y {
        let pos = Pos { x: region.from.x, y: y as i32 };
        lemma_cut_row_keeps_line_feeds(text, pos, cut_budget(region));
        lemma_cut_rows_keep_line_feeds(cut_row(text, pos, cut_budget(region)), region, y + 1);
    }
}

} // verus!
