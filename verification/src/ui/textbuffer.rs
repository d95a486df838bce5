//! The type buffer: text that waits to be typed, handed out one unit at a time.

use crate::text::chars_of;
use vstd::prelude::*;
use vstd::string::StringExecFns;

verus! {

/// Whether `pending` starts with a tab: a run of four spaces.
pub open spec fn starts_with_tab(pending: Seq<char>) -> bool {
    pending.len() >= 4 && pending[0] == ' ' && pending[1] == ' ' && pending[2] == ' '
        && pending[3] == ' '
}

/// The unit that is typed next: nothing where nothing is pending, a run of
/// four spaces at once, any other character alone.
pub open spec fn next_unit(pending: Seq<char>) -> Seq<char> {
    if pending.len() == 0 {
        Seq::empty()
    } else if starts_with_tab(pending) {
        pending.take(4)
    } else {
        pending.take(1)
    }
}

/// Nothing is lost and nothing is typed twice: the next unit, and what is
/// pending behind it, are together what was pending; and while anything is
/// pending, the next unit holds at least one character.
pub proof fn lemma_next_unit(pending: Seq<char>)
    ensures
        next_unit(pending) + pending.skip(next_unit(pending).len() as int) == pending,
        pending.len() > 0 ==> next_unit(pending).len() > 0,
{
    assert(next_unit(pending) + pending.skip(next_unit(pending).len() as int) =~= pending);
}

/// This is text that should be typed out by the editor
pub struct TextBuffer {
    inner: Vec<char>,
    index: usize,
}

impl View for TextBuffer {
    type V = Seq<char>;

    /// The characters that are still to be typed.
    closed spec fn view(&self) -> Seq<char> {
        if self.index <= self.inner.len() {
            self.inner@.skip(self.index as int)
        } else {
            Seq::empty()
        }
    }
}

impl TextBuffer {
    pub fn new() -> (out: Self)
        ensures
            out@ == Seq::<char>::empty(),
    {
        let out = Self { inner: Vec::new(), index: 0 };
        assert(out@ =~= Seq::<char>::empty());
        out
    }

    /// Puts `s` behind what is pending.
    pub fn push(&mut self, s: &str)
        ensures
            final(self)@ == old(self)@ + s@,
    {
        if self.index > self.inner.len() {
            self.index = 0;
            self.inner.clear();
        }
        let mut more = chars_of(s);
        self.inner.append(&mut more);
        assert(self@ =~= old(self)@ + s@);
    }

    /// Whether nothing is pending.
    pub fn is_empty(&self) -> (empty: bool)
        ensures
            empty == (self@.len() == 0),
    {
        self.index >= self.inner.len()
    }

    /// Hands out the unit that is typed next, or nothing once all is typed.
    pub fn next(&mut self) -> (out: Option<String>)
        ensures
            match out {
                Some(unit) => old(self)@.len() > 0 && unit@ == next_unit(old(self)@),
                None => old(self)@.len() == 0,
            },
            final(self)@ == old(self)@.skip(next_unit(old(self)@).len() as int),
    {
        let ghost pending = self@;
        if self.index >= self.inner.len() {
            self.index = 0;
            self.inner.clear();
            assert(self@ =~= pending.skip(0));
            return None;
        }
        let len = self.inner.len();
        let i = self.index;
        if len - i >= 4 && self.inner[i] == ' ' && self.inner[i + 1] == ' ' && self.inner[i + 2]
            == ' ' && self.inner[i + 3] == ' ' {
            self.index += 4;
            let unit = String::from_str("    ");
            proof {
                reveal_strlit("    ");
                assert(unit@ =~= pending.take(4));
                assert(self@ =~= pending.skip(4));
            }
            return Some(unit);
        }
        let mut unit = String::new();
        unit.push(self.inner[i]);
        self.index += 1;
        proof {
            assert(unit@ =~= pending.take(1));
            assert(self@ =~= pending.skip(1));
        }
        Some(unit)
    }
}

} // verus!
