//! Module for [`UTF8Replacer`]
//!
//! Used for improved terminal compatibility.

use vstd::prelude::*;

verus! {

/// Determines what mode to display [`UTF8Replacer`] in.
#[derive(Copy, Clone, PartialEq, Eq, Structural, Debug)]
pub enum UTF8ReplacerMode {
    /// Display in UTF-8 mode.
    ///
    /// This is the default mode.
    UTF8,
    /// Display in ASCII mode.
    ASCII,
}

impl Default for UTF8ReplacerMode {
    /// UTF-8 mode.
    fn default() -> (r: Self)
        ensures
            r == UTF8ReplacerMode::UTF8,
    {
        UTF8ReplacerMode::UTF8
    }
}

/// UTF-8 replacer: a piece of text in UTF-8, and what stands for it in ASCII.
#[derive(Copy, Clone)]
pub struct UTF8Replacer {
    ascii: &'static str,
    utf8: &'static str,
}

impl UTF8Replacer {
    /// The text in ASCII.
    pub closed spec fn ascii(self) -> &'static str {
        self.ascii
    }

    /// The text in UTF-8.
    pub closed spec fn utf8(self) -> &'static str {
        self.utf8
    }

    /// Make a replacer from a text in UTF-8 and what stands for it in ASCII.
    pub fn make(utf8: &'static str, ascii: &'static str) -> (r: Self)
        ensures
            r.utf8() == utf8,
            r.ascii() == ascii,
    {
        Self { ascii, utf8 }
    }

    /// Represents `˚` as `deg` in ASCII.
    pub fn degrees() -> (r: Self)
        ensures
            r.utf8() == "˚",
            r.ascii() == "deg",
    {
        Self::make("˚", "deg")
    }

    /// Represents `≥` as `>=` in ASCII.
    pub fn greater_than_or_equal_to() -> (r: Self)
        ensures
            r.utf8() == "≥",
            r.ascii() == ">=",
    {
        Self::make("≥", ">=")
    }

    /// Represents `≤` as `<=` in ASCII.
    pub fn less_than_or_equal_to() -> (r: Self)
        ensures
            r.utf8() == "≤",
            r.ascii() == "<=",
    {
        Self::make("≤", "<=")
    }

    /// The text to display in the given mode.
    pub fn text(&self, mode: UTF8ReplacerMode) -> (r: &'static str)
        ensures
            r == match mode {
                UTF8ReplacerMode::UTF8 => self.utf8(),
                UTF8ReplacerMode::ASCII => self.ascii(),
            },
    {
        match mode {
            UTF8ReplacerMode::UTF8 => self.utf8,
            UTF8ReplacerMode::ASCII => self.ascii,
        }
    }
}

} // verus!
