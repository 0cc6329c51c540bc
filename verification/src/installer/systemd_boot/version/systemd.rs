//! The version of the boot-manager tool, as the tool reports it.

use vstd::prelude::*;
use vstd::string::*;
use vstd::utf8::{decode_utf8, valid_utf8};
use crate::decimal::{decimal, lemma_decimal_round_trip, parse_decimal, parse_usize, usize_to_string};
use crate::error::BootError;
use crate::pattern::{capture, pattern_capture};
use crate::text::{owned, utf8_text};

verus! {

/// The pattern that finds the version in the tool's `--version` output.
pub open spec fn tool_version_pattern() -> Seq<char> {
    "systemd [^\\s]+ \\((?P<version>[^\\)]+)\\)"@
}

/// The whole number that `text` denotes, where it denotes one that fits the
/// machine word.
pub open spec fn number_of(text: Seq<char>) -> Option<usize> {
    match parse_decimal(text) {
        Some(n) => if n <= usize::MAX {
            Some(n as usize)
        } else {
            None
        },
        None => None,
    }
}

/// The version of the tool: free text, since distributions do not all count
/// in whole numbers.
#[derive(Debug, PartialEq)]
pub struct SystemdVersion {
    pub version: String,
}

impl View for SystemdVersion {
    type V = Seq<char>;

    open spec fn view(&self) -> Seq<char> {
        self.version@
    }
}

impl DeepView for SystemdVersion {
    type V = Seq<char>;

    open spec fn deep_view(&self) -> Seq<char> {
        self.version@
    }
}

impl Clone for SystemdVersion {
    fn clone(&self) -> (r: Self)
        ensures
            r@ == self@,
    {
        Self { version: self.version.clone() }
    }
}

impl SystemdVersion {
    /// The version that is written as `text`.
    pub fn from_text(text: &str) -> (r: Self)
        ensures
            r@ == text@,
    {
        Self { version: owned(text) }
    }

    /// The version that is the whole number `n`: its text is `n` in
    /// decimal, so that it compares as that number.
    pub fn from_number(n: usize) -> (r: Self)
        ensures
            r@ == decimal(n as nat),
            r.number_spec() == Some(n),
    {
        proof {
            lemma_decimal_round_trip(n as nat);
        }
        Self { version: usize_to_string(n) }
    }

    /// The version that `version` prints as. What a value prints as is for
    /// its `Display` to say; `from_text` and `from_number` fix the text for
    /// the two kinds of value that versions are made from.
    pub fn new(version: impl core::fmt::Display) -> (r: Self)
        ensures
            to_string_from_display_ensures(&version, r.version),
    {
        Self { version: version.to_string() }
    }

    /// The version as a whole number, where it is written as one and fits
    /// the machine word.
    pub open spec fn number_spec(self) -> Option<usize> {
        number_of(self.version@)
    }

    /// The version as a whole number; `None` for a version in any other
    /// form, which no installed version is compared with.
    pub fn number(&self) -> (r: Option<usize>)
        ensures
            r == self.number_spec(),
    {
        parse_usize(self.version.as_str())
    }

    /// What the tool's output says, over the result of the search: the
    /// version where the output holds one. The tool must always report its
    /// version, so finding none is an error.
    pub open spec fn from_output_spec(output: Seq<u8>) -> Result<Seq<char>, BootError> {
        if !valid_utf8(output) {
            Err(BootError::InvalidUtf8)
        } else {
            match pattern_capture(
                tool_version_pattern(),
                false,
                false,
                decode_utf8(output),
                "version"@,
            ) {
                None => Err(BootError::BadPattern),
                Some(None) => Err(BootError::NoVersion),
                Some(Some(v)) => Ok(v),
            }
        }
    }

    /// The version that a search of the tool's output found, or the error
    /// that stands for finding none.
    pub fn from_capture(found: Option<String>) -> (r: Result<Self, BootError>)
        ensures
            match found {
                Some(v) => r is Ok && r->Ok_0@ == v@,
                None => r == Err::<Self, BootError>(BootError::NoVersion),
            },
    {
        match found {
            Some(version) => Ok(Self { version }),
            None => Err(BootError::NoVersion),
        }
    }

    /// Reads the tool's version from the output of `bootctl --version`.
    pub fn from_output(output: &[u8]) -> (r: Result<Self, BootError>)
        ensures
            match r {
                Ok(v) => Self::from_output_spec(output@) == Ok::<Seq<char>, BootError>(v@),
                Err(e) => Self::from_output_spec(output@) == Err::<Seq<char>, BootError>(e),
            },
    {
        let text = match utf8_text(output) {
            Some(text) => text,
            None => {
                return Err(BootError::InvalidUtf8);
            },
        };
        match capture(
            "systemd [^\\s]+ \\((?P<version>[^\\)]+)\\)",
            false,
            false,
            text.as_str(),
            "version",
        ) {
            Ok(found) => Self::from_capture(found),
            Err(_) => Err(BootError::BadPattern),
        }
    }
}

} // verus!
