//! ANSI colouring of terminal output.
use vstd::prelude::*;
use crate::text::{push_str_chars, string_of};

verus! {

/// Paints text with ANSI escape codes when enabled.
#[derive(Clone, Copy, Debug)]
pub struct Colors {
    pub enabled: bool,
}

/// `value` wrapped in the escape sequence selecting `code` and the reset
/// sequence when `enabled`; `value` itself otherwise.
pub open spec fn painted(enabled: bool, code: Seq<char>, value: Seq<char>) -> Seq<char> {
    if enabled {
        "\x1b["@ + code + "m"@ + value + "\x1b[0m"@
    } else {
        value
    }
}

impl Colors {
    pub fn new(enabled: bool) -> (c: Self)
        ensures
            c.enabled == enabled,
    {
        Self { enabled }
    }

    pub fn paint(&self, code: &str, value: &str) -> (out: String)
        ensures
            out@ == painted(self.enabled, code@, value@),
    {
        if self.enabled {
            let mut cs: Vec<char> = Vec::new();
            push_str_chars(&mut cs, "\x1b[");
            push_str_chars(&mut cs, code);
            push_str_chars(&mut cs, "m");
            push_str_chars(&mut cs, value);
            push_str_chars(&mut cs, "\x1b[0m");
            string_of(&cs)
        } else {
            let mut cs: Vec<char> = Vec::new();
            push_str_chars(&mut cs, value);
            assert(cs@ =~= value@);
            string_of(&cs)
        }
    }

    /// Checkpoint markers: bold magenta.
    pub fn checkpoint(&self, value: &str) -> (out: String)
        ensures
            out@ == painted(self.enabled, "35;1"@, value@),
    {
        self.paint("35;1", value)
    }

    /// Save markers: bold green.
    pub fn save(&self, value: &str) -> (out: String)
        ensures
            out@ == painted(self.enabled, "32;1"@, value@),
    {
        self.paint("32;1", value)
    }

    pub fn dim(&self, value: &str) -> (out: String)
        ensures
            out@ == painted(self.enabled, "2"@, value@),
    {
        self.paint("2", value)
    }

    pub fn bold(&self, value: &str) -> (out: String)
        ensures
            out@ == painted(self.enabled, "1"@, value@),
    {
        self.paint("1", value)
    }

    /// Branch lines: dim yellow.
    pub fn branch(&self, value: &str) -> (out: String)
        ensures
            out@ == painted(self.enabled, "2;33"@, value@),
    {
        self.paint("2;33", value)
    }

    /// Private checkpoints: cyan.
    pub fn private_cp(&self, value: &str) -> (out: String)
        ensures
            out@ == painted(self.enabled, "36"@, value@),
    {
        self.paint("36", value)
    }

    /// Added paths: green.
    pub fn added(&self, value: &str) -> (out: String)
        ensures
            out@ == painted(self.enabled, "32"@, value@),
    {
        self.paint("32", value)
    }

    /// Modified paths: yellow.
    pub fn modified(&self, value: &str) -> (out: String)
        ensures
            out@ == painted(self.enabled, "33"@, value@),
    {
        self.paint("33", value)
    }

    /// Removed paths: red.
    pub fn removed(&self, value: &str) -> (out: String)
        ensures
            out@ == painted(self.enabled, "31"@, value@),
    {
        self.paint("31", value)
    }
}

}
