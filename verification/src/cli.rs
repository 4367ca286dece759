//! The command-line arguments and the mode they select. The decision which
//! mode a combination of flags names is made here, with a contract; reading
//! the arguments, the files and the printing are the orchestration layer's
//! business.

use vstd::prelude::*;

verus! {

/// The three optional command-line arguments: a wordlist path, a
/// hash-function selector and a credential-CSV path.
#[derive(Debug)]
pub struct CLI {
    /// Path of the wordlist file.
    pub dictionary: Option<String>,
    /// Name of the hash function to use.
    pub hash: Option<String>,
    /// Path of the credential CSV file.
    pub passwords: Option<String>,
}

/// What one invocation is asked to do.
#[derive(Debug)]
pub enum Mode {
    /// Only the wordlist was named: load and report it.
    Dictionary(String),
    /// Only the hash function was named: resolve and report it.
    Hash(String),
    /// Only the credential CSV was named: load and report it.
    Passwords(String),
    /// All three were named: run the full matching pipeline on the wordlist
    /// path, selector and CSV path.
    Crack(String, String, String),
    /// Any other combination of flags is refused.
    Invalid,
}

/// The mode a combination of arguments selects: exactly one of the three
/// flags picks the single-source mode of that flag, all three together pick
/// the matching pipeline, and everything else (none, or exactly two) is
/// invalid.
pub open spec fn mode_spec(c: CLI) -> Mode {
    match (c.dictionary, c.hash, c.passwords) {
        (Some(d), None, None) => Mode::Dictionary(d),
        (None, Some(h), None) => Mode::Hash(h),
        (None, None, Some(p)) => Mode::Passwords(p),
        (Some(d), Some(h), Some(p)) => Mode::Crack(d, h, p),
        _ => Mode::Invalid,
    }
}

impl CLI {
    /// Decides which mode the parsed arguments select.
    pub fn mode(self) -> (m: Mode)
        ensures
            m == mode_spec(self),
    {
        match (self.dictionary, self.hash, self.passwords) {
            (Some(d), None, None) => Mode::Dictionary(d),
            (None, Some(h), None) => Mode::Hash(h),
            (None, None, Some(p)) => Mode::Passwords(p),
            (Some(d), Some(h), Some(p)) => Mode::Crack(d, h, p),
            _ => Mode::Invalid,
        }
    }
}

} // verus!
