//! The load context: what was loaded, under which name.

use crate::ui::error::{Error, ErrorView, Result};
use vstd::hash_map::StringHashMap;
use vstd::prelude::*;
use vstd::string::StringExecFns;

verus! {

/// The texts that a script loaded, each under its name.
pub struct Context {
    data: StringHashMap<String>,
}

impl View for Context {
    type V = Map<Seq<char>, Seq<char>>;

    closed spec fn view(&self) -> Map<Seq<char>, Seq<char>> {
        self.data@.map_values(|text: String| text@)
    }
}

impl Context {
    pub fn new() -> (out: Self)
        ensures
            out@ == Map::<Seq<char>, Seq<char>>::empty(),
    {
        let out = Self { data: StringHashMap::new() };
        assert(out@ =~= Map::<Seq<char>, Seq<char>>::empty());
        out
    }

    /// Keeps `value` under the name `key`, in the place of what was there.
    pub fn set(&mut self, key: String, value: String)
        ensures
            final(self)@ == old(self)@.insert(key@, value@),
    {
        self.data.insert(key, value);
        assert(self@ =~= old(self)@.insert(key@, value@));
    }

    /// The text that was loaded under the name `key`.
    pub fn load(&self, key: &str) -> (out: Result<String>)
        ensures
            match out {
                Ok(text) => self@.contains_key(key@) && text@ == self@[key@],
                Err(e) => !self@.contains_key(key@) && e@ == ErrorView::LoadValue(key@),
            },
    {
        match self.data.get(key) {
            Some(text) => Ok(text.clone()),
            None => Err(Error::LoadValue(String::from_str(key))),
        }
    }
}

} // verus!
