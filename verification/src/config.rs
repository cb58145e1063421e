//! Dispatcher configuration: the dispatcher's name, its color preference, and
//! the root and cache directories it was resolved against. Directory
//! resolution itself is an external concern; the configuration holds the
//! resolved paths as plain strings.

use vstd::prelude::*;

use crate::chars::{append_str_chars, chars_to_string, str_to_chars};

verus! {

/// Color preference for rendered output.
#[derive(Clone, Copy, Debug, PartialEq, Eq, Structural)]
pub enum Color {
    Auto,
    Always,
    Never,
}

/// Dispatcher configuration, immutable after construction.
#[derive(Clone, Debug)]
pub struct Config {
    pub name: String,
    pub color: Color,
    pub root: String,
    pub cache_directory: String,
}

impl Config {
    /// Builds a configuration from already-resolved paths.
    pub fn new(name: String, root: String, cache_directory: String, color: Color) -> (c: Config)
        ensures
            c.name@ == name@,
            c.root@ == root@,
            c.cache_directory@ == cache_directory@,
            c.color == color,
    {
        Config { name, color, root, cache_directory }
    }

    /// The directory holding the dispatcher's subcommand scripts: the root
    /// with the `libexec` segment appended.
    pub fn libexec_path(&self) -> (p: String)
        ensures
            p@ == self.root@ + "/libexec"@,
    {
        let mut out = str_to_chars(self.root.as_str());
        append_str_chars(&mut out, "/libexec");
        chars_to_string(&out)
    }
}

} // verus!
