//! The version of the boot manager that is installed on a partition, and how
//! it compares with the tool's.

use std::cmp::Ordering;
use vstd::prelude::*;
use vstd::std_specs::cmp::{PartialEqSpec, PartialEqSpecImpl, PartialOrdSpecImpl};
use vstd::string::*;
use vstd::utf8::{decode_utf8, valid_utf8};
use super::systemd::{number_of, SystemdVersion};
use crate::decimal::parse_usize;
use crate::error::BootError;
use crate::pattern::{capture, pattern_capture};
use crate::text::utf8_text;

verus! {

/// The pattern that finds an installed boot manager in the tool's status
/// report. It is applied line by line and without regard to case.
pub open spec fn installed_version_pattern() -> Seq<char> {
    "^\\W+File:.*/EFI/(BOOT|systemd)/.*\\.efi \\(systemd-boot (?P<version>\\d+)\\)$"@
}

/// The version of an installed boot manager: a whole number.
#[derive(Debug)]
pub struct SystemdBootVersion {
    pub version: usize,
}

impl View for SystemdBootVersion {
    type V = usize;

    open spec fn view(&self) -> usize {
        self.version
    }
}

impl DeepView for SystemdBootVersion {
    type V = usize;

    open spec fn deep_view(&self) -> usize {
        self.version
    }
}

impl Clone for SystemdBootVersion {
    fn clone(&self) -> (r: Self)
        ensures
            r == *self,
    {
        Self { version: self.version }
    }
}

impl SystemdBootVersion {
    pub fn new(version: usize) -> (r: Self)
        ensures
            r.version == version,
    {
        Self { version }
    }

    /// What a status report says, over the result of the search: the version
    /// of the first boot manager listed, or none.
    pub open spec fn from_output_spec(output: Seq<u8>) -> Result<Option<usize>, BootError> {
        if !valid_utf8(output) {
            Err(BootError::InvalidUtf8)
        } else {
            match pattern_capture(
                installed_version_pattern(),
                true,
                true,
                decode_utf8(output),
                "version"@,
            ) {
                None => Err(BootError::BadPattern),
                Some(None) => Ok(None),
                Some(Some(digits)) => Ok(number_of(digits)),
            }
        }
    }

    /// The version that a search of the status report found. Digits that
    /// name no machine word count as no version.
    pub fn from_capture(found: Option<String>) -> (r: Option<Self>)
        ensures
            r.deep_view() == match found {
                Some(digits) => number_of(digits@),
                None => None,
            },
    {
        match found {
            Some(digits) => match parse_usize(digits.as_str()) {
                Some(n) => Some(Self::new(n)),
                None => None,
            },
            None => None,
        }
    }

    /// Reads the installed version from the output of `bootctl status`. That
    /// no boot manager is listed is no error: none may be installed yet.
    pub fn from_output(output: &[u8]) -> (r: Result<Option<Self>, BootError>)
        ensures
            match r {
                Ok(v) => Self::from_output_spec(output@) == Ok::<Option<usize>, BootError>(
                    v.deep_view(),
                ),
                Err(e) => Self::from_output_spec(output@) == Err::<Option<usize>, BootError>(e),
            },
    {
        let text = match utf8_text(output) {
            Some(text) => text,
            None => {
                return Err(BootError::InvalidUtf8);
            },
        };
        match capture(
            "^\\W+File:.*/EFI/(BOOT|systemd)/.*\\.efi \\(systemd-boot (?P<version>\\d+)\\)$",
            true,
            true,
            text.as_str(),
            "version",
        ) {
            Ok(found) => Ok(Self::from_capture(found)),
            Err(_) => Err(BootError::BadPattern),
        }
    }

    /// Whether this installed version is strictly older than the tool's.
    /// A tool version that is no whole number is not compared: the answer is
    /// then no.
    pub open spec fn older_than_spec(self, tool: SystemdVersion) -> bool {
        match tool.number_spec() {
            Some(n) => self.version < n,
            None => false,
        }
    }

    /// Whether this installed version is strictly older than the tool's.
    pub fn older_than(&self, tool: &SystemdVersion) -> (r: bool)
        ensures
            r == self.older_than_spec(*tool),
    {
        match tool.number() {
            Some(n) => self.version < n,
            None => false,
        }
    }
}

impl PartialEq for SystemdBootVersion {
    fn eq(&self, other: &Self) -> (r: bool) {
        self.version == other.version
    }
}

impl PartialEqSpecImpl for SystemdBootVersion {
    open spec fn obeys_eq_spec() -> bool {
        true
    }

    open spec fn eq_spec(&self, other: &Self) -> bool {
        self.version == other.version
    }
}

impl PartialEq<SystemdVersion> for SystemdBootVersion {
    fn eq(&self, other: &SystemdVersion) -> (r: bool) {
        match other.number() {
            Some(n) => self.version == n,
            None => false,
        }
    }
}

impl PartialEqSpecImpl<SystemdVersion> for SystemdBootVersion {
    open spec fn obeys_eq_spec() -> bool {
        true
    }

    open spec fn eq_spec(&self, other: &SystemdVersion) -> bool {
        other.number_spec() == Some(self.version)
    }
}

impl PartialOrd<SystemdVersion> for SystemdBootVersion {
    fn partial_cmp(&self, other: &SystemdVersion) -> (r: Option<Ordering>) {
        match other.number() {
            Some(n) => if self.version < n {
                Some(Ordering::Less)
            } else if self.version == n {
                Some(Ordering::Equal)
            } else {
                Some(Ordering::Greater)
            },
            None => None,
        }
    }
}

impl PartialOrdSpecImpl<SystemdVersion> for SystemdBootVersion {
    open spec fn obeys_partial_cmp_spec() -> bool {
        true
    }

    open spec fn partial_cmp_spec(&self, other: &SystemdVersion) -> Option<Ordering> {
        match other.number_spec() {
            Some(n) => if self.version < n {
                Some(Ordering::Less)
            } else if self.version == n {
                Some(Ordering::Equal)
            } else {
                Some(Ordering::Greater)
            },
            None => None,
        }
    }
}

/// Whether the boot manager is to be updated: only where one is installed
/// and it is strictly older than the tool.
pub open spec fn needs_update_spec(
    installed: Option<SystemdBootVersion>,
    tool: SystemdVersion,
) -> bool {
    match installed {
        Some(v) => v.older_than_spec(tool),
        None => false,
    }
}

/// Decides whether the update command is run.
pub fn needs_update(installed: &Option<SystemdBootVersion>, tool: &SystemdVersion) -> (r: bool)
    ensures
        r == needs_update_spec(*installed, *tool),
{
    match installed {
        Some(v) => v.older_than(tool),
        None => false,
    }
}

/// Two whole-number versions compare as their numbers do: the installed one
/// is older exactly where its number is smaller.
pub proof fn lemma_numeric_versions_compare_as_numbers(
    installed: SystemdBootVersion,
    tool: SystemdVersion,
    n: usize,
)
    requires
        tool.number_spec() == Some(n),
    ensures
        installed.older_than_spec(tool) <==> installed.version < n,
        needs_update_spec(Some(installed), tool) <==> installed.version < n,
{
}

/// Equal versions are never older, whatever form the tool's version has.
pub proof fn lemma_equal_is_never_older(installed: SystemdBootVersion, tool: SystemdVersion)
    requires
        PartialEqSpec::<SystemdVersion>::eq_spec(&installed, &tool),
    ensures
        !installed.older_than_spec(tool),
        !needs_update_spec(Some(installed), tool),
{
}

/// Where no installed version was found, nothing is updated.
pub proof fn lemma_absent_version_never_updates(tool: SystemdVersion)
    ensures
        !needs_update_spec(None, tool),
{
}

} // verus!
