//! Markers: named rows, written into a text as comment lines of the form
//! `// @name`, taken out of the text when it is scanned, and kept in step
//! with the document while it changes.

use crate::text::{chars_of, is_name_char, is_white_space, name_char, string_of, unicode_white_space};
use vstd::prelude::*;
use vstd::string::StringExecFns;

verus! {

// -----------------------------------------------------------------------------
//   - Marker lines -
// -----------------------------------------------------------------------------
/// Whether `s` holds the character `c` at `i`.
pub open spec fn holds(s: Seq<char>, i: int, c: char) -> bool {
    0 <= i < s.len() && s[i] == c
}

/// The first index at or behind `i` that holds no whitespace, or the length of `s`.
pub open spec fn skip_space(s: Seq<char>, i: int) -> int
    decreases s.len() - i,
{
    if 0 <= i < s.len() && unicode_white_space(s[i]) {
        skip_space(s, i + 1)
    } else {
        i
    }
}

/// The length of the comment symbol that starts at `i`, or zero where none
/// does. The symbols are `//`, `#`, `;;`, `;` and `--`; of two that start
/// there, the longer counts.
pub open spec fn symbol_len(s: Seq<char>, i: int) -> int {
    if holds(s, i, '/') && holds(s, i + 1, '/') {
        2
    } else if holds(s, i, '#') {
        1
    } else if holds(s, i, ';') {
        if holds(s, i + 1, ';') {
            2
        } else {
            1
        }
    } else if holds(s, i, '-') && holds(s, i + 1, '-') {
        2
    } else {
        0
    }
}

/// The end of the name that starts at `i`: the first index at or behind `i`
/// that holds no letter, digit, `_` or `-`.
pub open spec fn name_end(s: Seq<char>, i: int) -> int
    decreases s.len() - i,
{
    if 0 <= i < s.len() && is_name_char(s[i]) {
        name_end(s, i + 1)
    } else {
        i
    }
}

/// The index of the `@` that follows the comment symbol at the start of
/// `line`, whitespace aside, or none where the line does not start so.
pub open spec fn at_sign(line: Seq<char>) -> Option<int> {
    let symbol = skip_space(line, 0);
    let len = symbol_len(line, symbol);
    let at = skip_space(line, symbol + len);
    if len > 0 && holds(line, at, '@') {
        Some(at)
    } else {
        None
    }
}

/// The name of the marker that `line` defines, if it defines one: behind
/// whitespace a comment symbol, behind whitespace one `@`, not two, and
/// behind whitespace a name of at least one character.
pub open spec fn marker_name(line: Seq<char>) -> Option<Seq<char>> {
    match at_sign(line) {
        Some(at) => {
            let start = skip_space(line, at + 1);
            let end = name_end(line, start);
            if !holds(line, at + 1, '@') && start < end {
                Some(line.subrange(start, end))
            } else {
                None
            }
        },
        None => None,
    }
}

/// The line as it is kept: where `@@` stands in the place of the `@` of a
/// marker, the first `@` is dropped; every other line is kept as it is.
pub open spec fn escape_line(line: Seq<char>) -> Seq<char> {
    match at_sign(line) {
        Some(at) => if holds(line, at + 1, '@') {
            line.remove(at)
        } else {
            line
        },
        None => line,
    }
}

/// The end of the line that starts at `i`: behind its line feed, or the end
/// of the text.
pub open spec fn line_end(text: Seq<char>, i: int) -> int
    decreases text.len() - i,
{
    if i < 0 || i >= text.len() {
        i
    } else if text[i] == '\n' {
        i + 1
    } else {
        line_end(text, i + 1)
    }
}

/// A line ends behind its start and inside the text.
pub proof fn lemma_line_end(text: Seq<char>, i: int)
    requires
        0 <= i < text.len(),
    ensures
        i < line_end(text, i) <= text.len(),
    decreases text.len() - i,
{
    if text[i] != '\n' {
        if i + 1 < text.len() {
            lemma_line_end(text, i + 1);
        } else {
            assert(line_end(text, i + 1) == i + 1);
        }
    }
}

/// What a scan finds in a text: the text without its marker lines, and the markers.
pub struct Scan {
    pub content: Seq<char>,
    pub markers: Seq<MarkerView>,
}

/// Scans the lines of `text` from `i` on, where `row` lines were kept before.
///
/// A line that defines a marker is left out of the content, and the marker
/// gets the row that the next kept line gets; so a marker line takes up no
/// row. Every other line is kept, with its escape undone.
pub open spec fn scan_lines(text: Seq<char>, i: int, row: nat) -> Scan
    decreases text.len() - i,
{
    if i < 0 || i >= text.len() {
        Scan { content: Seq::empty(), markers: Seq::empty() }
    } else {
        proof {
            lemma_line_end(text, i);
        }
        let end = line_end(text, i);
        let line = text.subrange(i, end);
        match marker_name(line) {
            Some(name) => {
                let rest = scan_lines(text, end, row);
                Scan {
                    content: rest.content,
                    markers: seq![MarkerView { row, name }] + rest.markers,
                }
            },
            None => {
                let rest = scan_lines(text, end, row + 1);
                Scan { content: escape_line(line) + rest.content, markers: rest.markers }
            },
        }
    }
}

/// What the scan of a whole text finds.
pub open spec fn scanned(text: Seq<char>) -> Scan {
    scan_lines(text, 0, 0)
}

// -----------------------------------------------------------------------------
//   - Marker -
// -----------------------------------------------------------------------------
/// A named row.
#[derive(Debug)]
pub struct Marker {
    pub row: usize,
    name: String,
}

/// What a [`Marker`] stands for.
pub struct MarkerView {
    pub row: nat,
    pub name: Seq<char>,
}

impl View for Marker {
    type V = MarkerView;

    closed spec fn view(&self) -> MarkerView {
        MarkerView { row: self.row as nat, name: self.name@ }
    }
}

impl Marker {
    /// The marker called `name` on the row `row`.
    pub fn new(row: usize, name: String) -> (marker: Marker)
        ensures
            marker@ == (MarkerView { row: row as nat, name: name@ }),
    {
        Marker { row, name }
    }

    /// The name of the marker.
    pub fn name(&self) -> (name: &String)
        ensures
            name@ == self@.name,
    {
        &self.name
    }

    /// The row of the marker.
    pub fn row(&self) -> (row: usize)
        ensures
            row == self@.row,
    {
        self.row
    }
}

/// The views of a sequence of markers, one for one.
pub open spec fn marker_views(markers: Seq<Marker>) -> Seq<MarkerView> {
    markers.map_values(|m: Marker| m@)
}

/// Skips whitespace in `line` from `i` on.
fn skip_space_in(line: &Vec<char>, i: usize) -> (out: usize)
    requires
        i <= line.len(),
    ensures
        out == skip_space(line@, i as int),
        i <= out <= line.len(),
{
    let mut k = i;
    while k < line.len() && is_white_space(line[k])
        invariant
            i <= k <= line.len(),
            skip_space(line@, i as int) == skip_space(line@, k as int),
        decreases line.len() - k,
    {
        k += 1;
    }
    k
}

/// Computes [`symbol_len`].
fn symbol_len_in(line: &Vec<char>, i: usize) -> (out: usize)
    requires
        i <= line.len(),
    ensures
        out == symbol_len(line@, i as int),
        i + out <= line.len(),
{
    if i >= line.len() {
        return 0;
    }
    let c = line[i];
    let second = if i + 1 < line.len() {
        Some(line[i + 1])
    } else {
        None
    };
    if c == '/' && second == Some('/') {
        2
    } else if c == '#' {
        1
    } else if c == ';' {
        if second == Some(';') {
            2
        } else {
            1
        }
    } else if c == '-' && second == Some('-') {
        2
    } else {
        0
    }
}

/// Computes [`at_sign`].
fn at_sign_in(line: &Vec<char>) -> (out: Option<usize>)
    ensures
        match at_sign(line@) {
            Some(at) => out == Some(at as usize) && at < line.len(),
            None => out is None,
        },
{
    let symbol = skip_space_in(line, 0);
    let len = symbol_len_in(line, symbol);
    let at = skip_space_in(line, symbol + len);
    if len > 0 && at < line.len() && line[at] == '@' {
        Some(at)
    } else {
        None
    }
}

/// The marker that `line` defines, on the row `offset`.
fn marker_in(offset: usize, line: &Vec<char>) -> (out: Option<Marker>)
    ensures
        match marker_name(line@) {
            Some(name) => out matches Some(m) && m@ == (MarkerView { row: offset as nat, name }),
            None => out is None,
        },
{
    let at = match at_sign_in(line) {
        Some(at) => at,
        None => {
            return None;
        },
    };
    if at + 1 < line.len() && line[at + 1] == '@' {
        return None;
    }
    // Strip the marker prefix: '@'

    let start = skip_space_in(line, at + 1);
    let mut end = start;
    while end < line.len() && name_char(line[end])
        invariant
            start <= end <= line.len(),
            name_end(line@, start as int) == name_end(line@, end as int),
        decreases line.len() - end,
    {
        end += 1;
    }
    if start < end {
        Some(Marker { row: offset, name: string_of(line, start, end) })
    } else {
        None
    }
}

/// The marker that `line` defines, on the row `offset`.
pub fn marker(offset: usize, line: &str) -> (out: Option<Marker>)
    ensures
        match marker_name(line@) {
            Some(name) => out matches Some(m) && m@ == (MarkerView { row: offset as nat, name }),
            None => out is None,
        },
{
    let chars = chars_of(line);
    marker_in(offset, &chars)
}

/// Writes the kept form of `line` at the end of `out`.
fn escape_in(out: &mut Vec<char>, line: &Vec<char>)
    ensures
        final(out)@ == old(out)@ + escape_line(line@),
{
    let skip = match at_sign_in(line) {
        Some(at) => if at + 1 < line.len() && line[at + 1] == '@' {
            at
        } else {
            line.len()
        },
        None => line.len(),
    };
    let ghost kept = escape_line(line@);
    assert(kept == if skip < line.len() {
        line@.remove(skip as int)
    } else {
        line@
    });
    let mut i: usize = 0;
    while i < line.len()
        invariant
            i <= line.len(),
            skip <= line.len(),
            out@ == old(out)@ + (if i <= skip {
                line@.take(i as int)
            } else {
                line@.remove(skip as int).take(i - 1)
            }),
        decreases line.len() - i,
    {
        if i != skip {
            out.push(line[i]);
        }
        proof {
            let next = i + 1;
            if next <= skip {
                assert(line@.take(next as int) =~= line@.take(i as int).push(line@[i as int]));
            } else if i == skip {
                assert(line@.remove(skip as int).take(next - 1) =~= line@.take(i as int));
            } else {
                assert(line@.remove(skip as int).take(next - 1) =~= line@.remove(
                    skip as int,
                ).take(i - 1).push(line@[i as int]));
            }
        }
        i += 1;
    }
    proof {
        if skip < line.len() {
            assert(line@.remove(skip as int).take(i - 1) =~= line@.remove(skip as int));
        } else {
            assert(line@.take(i as int) =~= line@);
        }
    }
}

/// The line as it is kept: an escaped `@@` loses its first `@`.
pub fn escape_marker(input: &str) -> (out: String)
    ensures
        out@ == escape_line(input@),
{
    let line = chars_of(input);
    let mut kept: Vec<char> = Vec::new();
    escape_in(&mut kept, &line);
    assert(Seq::<char>::empty() + escape_line(line@) =~= escape_line(line@));
    let len = kept.len();
    let out = string_of(&kept, 0, len);
    assert(kept@.subrange(0, len as int) =~= kept@);
    out
}

/// What was found before, followed by what is found from here on.
pub open spec fn found(content: Seq<char>, markers: Seq<MarkerView>, rest: Scan) -> Scan {
    Scan { content: content + rest.content, markers: markers + rest.markers }
}

/// Takes the marker lines out of `text`: hands back the text without them,
/// and the markers they define, if there are any.
pub fn generate(text: &str) -> (out: (String, Option<Markers>))
    ensures
        out.0@ == scanned(text@).content,
        match out.1 {
            Some(markers) => markers@ == scanned(text@).markers && markers@.len() > 0,
            None => scanned(text@).markers.len() == 0,
        },
        sorted(scanned(text@).markers),
{
    proof {
        lemma_scan_sorted(text@, 0, 0);
    }
    let chars = chars_of(text);
    let mut markers: Vec<Marker> = vec![];
    let mut content: Vec<char> = Vec::new();
    let mut rows: usize = 0;
    let mut i: usize = 0;
    let ghost whole = scanned(chars@);
    proof {
        let rest = scan_lines(chars@, 0, 0);
        assert(Seq::<char>::empty() + rest.content =~= rest.content);
        assert(Seq::<MarkerView>::empty() + rest.markers =~= rest.markers);
        assert(marker_views(markers@) =~= Seq::<MarkerView>::empty());
    }
    while i < chars.len()
        invariant
            i <= chars.len(),
            rows <= i,
            chars@ == text@,
            whole == scanned(chars@),
            whole == found(content@, marker_views(markers@), scan_lines(chars@, i as int, rows as nat)),
        decreases chars.len() - i,
    {
        let mut end = i;
        while end < chars.len() && chars[end] != '\n'
            invariant
                i <= end <= chars.len(),
                line_end(chars@, i as int) == line_end(chars@, end as int),
            decreases chars.len() - end,
        {
            end += 1;
        }
        if end < chars.len() {
            end += 1;
        }
        proof {
            lemma_line_end(chars@, i as int);
        }
        let mut line: Vec<char> = Vec::new();
        let mut k = i;
        while k < end
            invariant
                i <= k <= end <= chars.len(),
                line@ == chars@.subrange(i as int, k as int),
            decreases end - k,
        {
            line.push(chars[k]);
            k += 1;
            assert(chars@.subrange(i as int, k as int) =~= chars@.subrange(
                i as int,
                k as int - 1,
            ).push(chars@[k as int - 1]));
        }
        let ghost before_content = content@;
        let ghost before_markers = marker_views(markers@);
        match marker_in(rows, &line) {
            Some(marker) => {
                markers.push(marker);
                proof {
                    let rest = scan_lines(chars@, end as int, rows as nat);
                    assert(marker_views(markers@) =~= before_markers.push(marker@));
                    assert(before_markers + (seq![marker@] + rest.markers) =~= before_markers.push(
                        marker@,
                    ) + rest.markers);
                }
            },
            None => {
                escape_in(&mut content, &line);
                rows += 1;
                proof {
                    let rest = scan_lines(chars@, end as int, rows as nat);
                    assert(before_content + (escape_line(line@) + rest.content) =~= (before_content
                        + escape_line(line@)) + rest.content);
                }
            },
        }
        i = end;
    }
    proof {
        assert(content@ + Seq::<char>::empty() =~= content@);
        assert(marker_views(markers@) + Seq::<MarkerView>::empty() =~= marker_views(markers@));
    }
    let len = content.len();
    let kept = string_of(&content, 0, len);
    assert(content@.subrange(0, len as int) =~= content@);
    let markers = if markers.len() > 0 {
        Some(Markers::from(markers))
    } else {
        None
    };
    (kept, markers)
}

// -----------------------------------------------------------------------------
//   - Markers -
// -----------------------------------------------------------------------------
/// `a + b`, held to what a row can hold.
pub open spec fn sat_add(a: nat, b: nat) -> nat {
    if a + b > usize::MAX {
        usize::MAX as nat
    } else {
        a + b
    }
}

impl MarkerView {
    /// The marker, `by` rows further down.
    pub open spec fn shifted(self, by: nat) -> MarkerView {
        MarkerView { row: sat_add(self.row, by), name: self.name }
    }
}

/// Every marker, `by` rows further down.
pub open spec fn shift_all(markers: Seq<MarkerView>, by: nat) -> Seq<MarkerView> {
    markers.map_values(|m: MarkerView| m.shifted(by))
}

/// The markers on the row `row` and behind it `by` rows further down, the
/// others where they were.
pub open spec fn shift_from(markers: Seq<MarkerView>, row: nat, by: nat) -> Seq<MarkerView> {
    markers.map_values(
        |m: MarkerView|
            if m.row >= row {
                m.shifted(by)
            } else {
                m
            },
    )
}

/// The index, at or behind `i`, of the first marker on the row `row` or
/// behind it; the number of markers where there is none.
pub open spec fn split_point(markers: Seq<MarkerView>, row: nat, i: int) -> int
    decreases markers.len() - i,
{
    if 0 <= i < markers.len() && markers[i].row < row {
        split_point(markers, row, i + 1)
    } else {
        i
    }
}

/// The split point lies inside; before it every marker is above the row.
pub proof fn lemma_split_point(markers: Seq<MarkerView>, row: nat, i: int)
    requires
        0 <= i <= markers.len(),
    ensures
        i <= split_point(markers, row, i) <= markers.len(),
        forall|k: int| i <= k < split_point(markers, row, i) ==> (#[trigger] markers[k]).row < row,
        split_point(markers, row, i) < markers.len() ==> markers[split_point(
            markers,
            row,
            i,
        )].row >= row,
    decreases markers.len() - i,
{
    if i < markers.len() && markers[i].row < row {
        lemma_split_point(markers, row, i + 1);
    }
}

/// The live markers with a batch of new ones merged in at the row `row`: the
/// new ones, moved down by `row`, stand together before the first live
/// marker on that row or behind it.
pub open spec fn merged(live: Seq<MarkerView>, row: nat, batch: Seq<MarkerView>) -> Seq<
    MarkerView,
> {
    let at = split_point(live, row, 0);
    live.take(at) + shift_all(batch, row) + live.skip(at)
}

/// Whether every row is one that a marker in memory can have.
pub open spec fn in_memory(markers: Seq<MarkerView>) -> bool {
    forall|i: int| 0 <= i < markers.len() ==> (#[trigger] markers[i]).row <= usize::MAX
}

/// Whether the rows never go back.
pub open spec fn sorted(markers: Seq<MarkerView>) -> bool {
    forall|i: int, j: int| 0 <= i <= j < markers.len() ==> markers[i].row <= markers[j].row
}

/// The index, at or behind `i`, of the first marker called `key`; the number
/// of markers where there is none.
pub open spec fn first_named(markers: Seq<MarkerView>, key: Seq<char>, i: int) -> int
    decreases markers.len() - i,
{
    if 0 <= i < markers.len() && markers[i].name != key {
        first_named(markers, key, i + 1)
    } else {
        i
    }
}

/// The first marker called `key`, if there is one.
pub open spec fn lookup(markers: Seq<MarkerView>, key: Seq<char>) -> Option<MarkerView> {
    let at = first_named(markers, key, 0);
    if at < markers.len() {
        Some(markers[at])
    } else {
        None
    }
}

/// The markers of a document, in the order of their rows.
#[derive(Debug)]
pub struct Markers {
    inner: Vec<Marker>,
}

impl View for Markers {
    type V = Seq<MarkerView>;

    closed spec fn view(&self) -> Seq<MarkerView> {
        marker_views(self.inner@)
    }
}

impl Markers {
    pub fn new() -> (out: Self)
        ensures
            out@ == Seq::<MarkerView>::empty(),
    {
        let out = Self { inner: vec![] };
        assert(out@ =~= Seq::<MarkerView>::empty());
        out
    }

    /// The markers in `inner`, in that order.
    pub fn from(inner: Vec<Marker>) -> (out: Self)
        ensures
            out@ == marker_views(inner@),
    {
        Self { inner }
    }

    /// The markers, in order.
    pub fn into_vec(self) -> (inner: Vec<Marker>)
        ensures
            marker_views(inner@) == self@,
    {
        self.inner
    }

    /// The markers of a list in memory have rows that fit in memory.
    pub proof fn lemma_in_memory(self)
        ensures
            in_memory(self@),
    {
    }

    /// The number of markers.
    pub fn len(&self) -> (len: usize)
        ensures
            len == self@.len(),
    {
        self.inner.len()
    }

    /// Moves every marker `offset_by` rows down.
    pub fn offset_by(&mut self, offset_by: usize)
        ensures
            final(self)@ == shift_all(old(self)@, offset_by as nat),
    {
        self.offset_after(0, offset_by);
        assert(shift_from(old(self)@, 0, offset_by as nat) =~= shift_all(
            old(self)@,
            offset_by as nat,
        ));
    }

    /// Takes the markers from `index` on out of the list and hands them back.
    pub fn split(&mut self, index: usize) -> (tail: Self)
        requires
            index <= old(self)@.len(),
        ensures
            final(self)@ == old(self)@.take(index as int),
            tail@ == old(self)@.skip(index as int),
    {
        let new = self.inner.split_off(index);
        let tail = Self { inner: new };
        assert(self@ =~= old(self)@.take(index as int));
        assert(tail@ =~= old(self)@.skip(index as int));
        tail
    }

    /// Moves the markers on the row `row` and behind it `offset` rows down.
    pub fn offset_after(&mut self, row: usize, offset: usize)
        ensures
            final(self)@ == shift_from(old(self)@, row as nat, offset as nat),
            sorted(old(self)@) ==> sorted(final(self)@),
    {
        proof {
            if sorted(self@) {
                lemma_offset_after_sorted(self@, row as nat, offset as nat);
            }
        }
        let mut i: usize = 0;
        while i < self.inner.len()
            invariant
                i <= self.inner.len() == old(self).inner.len(),
                forall|k: int|
                    0 <= k < i ==> (#[trigger] self.inner@[k])@ == shift_from(
                        old(self)@,
                        row as nat,
                        offset as nat,
                    )[k],
                forall|k: int|
                    i <= k < self.inner.len() ==> #[trigger] self.inner@[k] == old(self).inner@[k],
            decreases self.inner.len() - i,
        {
            if self.inner[i].row >= row {
                let moved = self.inner[i].row.saturating_add(offset);
                self.inner[i].row = moved;
            }
            i += 1;
        }
        assert(self@ =~= shift_from(old(self)@, row as nat, offset as nat));
    }

    /// The first marker called `key`.
    pub fn get(&self, key: &str) -> (out: Option<&Marker>)
        ensures
            match lookup(self@, key@) {
                Some(marker) => out matches Some(m) && m@ == marker,
                None => out is None,
            },
    {
        let wanted = String::from_str(key);
        let mut i: usize = 0;
        while i < self.inner.len()
            invariant
                i <= self.inner.len(),
                wanted@ == key@,
                first_named(self@, key@, 0) == first_named(self@, key@, i as int),
            decreases self.inner.len() - i,
        {
            if self.inner[i].name == wanted {
                return Some(&self.inner[i]);
            }
            i += 1;
        }
        None
    }

    // * offset new markers by insertion point
    // * offset current markers *after* the insertion point with N lines
    /// Merges the batch `other` in at the row `insert_after_row`.
    pub fn merge(&mut self, insert_after_row: usize, other: Self)
        ensures
            final(self)@ == merged(old(self)@, insert_after_row as nat, other@),
    {
        let ghost batch = other@;
        let mut other = other;
        // Offset the new rows by the insertion point (row)
        other.offset_by(insert_after_row);
        // The last marker before the insertion point
        let mut index: usize = 0;
        while index < self.inner.len() && self.inner[index].row < insert_after_row
            invariant
                index <= self.inner.len(),
                split_point(self@, insert_after_row as nat, 0) == split_point(
                    self@,
                    insert_after_row as nat,
                    index as int,
                ),
            decreases self.inner.len() - index,
        {
            index += 1;
        }
        // Offset the existing markers by the number of new rows added
        let mut rhs = self.split(index);
        // Add the new markers in before joining the old ones back in
        self.inner.append(&mut other.inner);
        self.inner.append(&mut rhs.inner);
        assert(self@ =~= merged(old(self)@, insert_after_row as nat, batch));
    }

    pub fn clear(&mut self)
        ensures
            final(self)@ == Seq::<MarkerView>::empty(),
    {
        self.inner.clear();
        assert(self@ =~= Seq::<MarkerView>::empty());
    }
}

// -----------------------------------------------------------------------------
//   - Laws -
// -----------------------------------------------------------------------------
/// Where a batch is merged in: the live markers above the row stay in
/// front, in their order; then comes the batch, in its order, each marker
/// moved down by the row; then come the live markers on the row and below
/// it, in their order. So the batch stands immediately before the first live
/// marker on the row or below it.
pub proof fn lemma_merge_splices(live: Seq<MarkerView>, row: nat, batch: Seq<MarkerView>)
    ensures
        ({
            let at = split_point(live, row, 0);
            let all = merged(live, row, batch);
            &&& 0 <= at <= live.len()
            &&& all.len() == live.len() + batch.len()
            &&& forall|i: int| 0 <= i < at ==> all[i] == live[i] && (#[trigger] live[i]).row < row
            &&& forall|j: int|
                0 <= j < batch.len() ==> all[at + j] == (#[trigger] batch[j]).shifted(row)
            &&& forall|i: int| at <= i < live.len() ==> all[batch.len() + i] == #[trigger] live[i]
            &&& at < live.len() ==> live[at].row >= row
        }),
{
    lemma_split_point(live, row, 0);
}

/// A merge keeps the rows in order where they can be: the live markers and
/// the batch are in order, and the batch, moved down by the row, ends at or
/// above the first live marker that comes behind it.
pub proof fn lemma_merge_sorted(live: Seq<MarkerView>, row: nat, batch: Seq<MarkerView>)
    requires
        in_memory(live),
        in_memory(batch),
        sorted(live),
        sorted(batch),
        batch.len() > 0 && split_point(live, row, 0) < live.len() ==> sat_add(
            batch.last().row,
            row,
        ) <= live[split_point(live, row, 0)].row,
    ensures
        sorted(merged(live, row, batch)),
{
    lemma_merge_splices(live, row, batch);
    let at = split_point(live, row, 0);
    let all = merged(live, row, batch);
    assert forall|i: int, j: int| 0 <= i <= j < all.len() implies all[i].row <= all[j].row by {
        if i < at {
            assert(all[i] == live[i]);
            if j < at {
                assert(all[j] == live[j]);
            } else if j < at + batch.len() {
                assert(all[j] == batch[j - at].shifted(row));
            } else {
                assert(all[j] == live[j - batch.len()]);
            }
        } else if i < at + batch.len() {
            assert(all[i] == batch[i - at].shifted(row));
            if j < at + batch.len() {
                assert(all[j] == batch[j - at].shifted(row));
                assert(batch[i - at].row <= batch[j - at].row);
            } else {
                assert(all[j] == live[j - batch.len()]);
                assert(batch[i - at].row <= batch.last().row);
                assert(live[at].row <= live[j - batch.len()].row);
            }
        } else {
            assert(all[i] == live[i - batch.len()]);
            assert(all[j] == live[j - batch.len()]);
        }
    }
}

/// What moving the rows behind a row does: every marker keeps its name and
/// its place in the list; a marker on the row `row` or below it is `by` rows
/// further down, a marker above it is where it was.
pub proof fn lemma_offset_after(markers: Seq<MarkerView>, row: nat, by: nat)
    ensures
        shift_from(markers, row, by).len() == markers.len(),
        forall|i: int|
            0 <= i < markers.len() ==> (#[trigger] shift_from(markers, row, by)[i]).name
                == markers[i].name,
        forall|i: int|
            0 <= i < markers.len() && markers[i].row >= row ==> (#[trigger] shift_from(
                markers,
                row,
                by,
            )[i]).row == sat_add(markers[i].row, by),
        forall|i: int|
            0 <= i < markers.len() && markers[i].row < row ==> #[trigger] shift_from(
                markers,
                row,
                by,
            )[i] == markers[i],
{
}

/// Moving the rows behind a row keeps the rows in order.
pub proof fn lemma_offset_after_sorted(markers: Seq<MarkerView>, row: nat, by: nat)
    requires
        in_memory(markers),
        sorted(markers),
    ensures
        sorted(shift_from(markers, row, by)),
{
    let moved = shift_from(markers, row, by);
    assert forall|i: int, j: int| 0 <= i <= j < moved.len() implies moved[i].row
        <= moved[j].row by {
        assert(markers[i].row <= markers[j].row);
    }
}

/// The markers that a scan finds are in the order of their rows, and no row
/// is above the row that the scan starts with.
pub proof fn lemma_scan_sorted(text: Seq<char>, i: int, row: nat)
    ensures
        sorted(scan_lines(text, i, row).markers),
        forall|k: int|
            0 <= k < scan_lines(text, i, row).markers.len() ==> (#[trigger] scan_lines(
                text,
                i,
                row,
            ).markers[k]).row >= row,
    decreases text.len() - i,
{
    if 0 <= i < text.len() {
        lemma_line_end(text, i);
        let end = line_end(text, i);
        let line = text.subrange(i, end);
        match marker_name(line) {
            Some(name) => {
                lemma_scan_sorted(text, end, row);
                let rest = scan_lines(text, end, row).markers;
                let all = scan_lines(text, i, row).markers;
                assert(all =~= seq![MarkerView { row, name }] + rest);
                assert forall|a: int, b: int| 0 <= a <= b < all.len() implies all[a].row
                    <= all[b].row by {
                    if a > 0 {
                        assert(all[a] == rest[a - 1]);
                        assert(all[b] == rest[b - 1]);
                    } else if b > 0 {
                        assert(all[b] == rest[b - 1]);
                    }
                }
                assert forall|k: int| 0 <= k < all.len() implies (#[trigger] all[k]).row
                    >= row by {
                    if k > 0 {
                        assert(all[k] == rest[k - 1]);
                    }
                }
            },
            None => {
                lemma_scan_sorted(text, end, row + 1);
            },
        }
    }
}

} // verus!
