//! Generating boot entries: from the descriptors of generations to the text
//! of their entry files and the images that go with them.

use vstd::prelude::*;
use vstd::string::*;
use crate::bootspec::{BootJson, SpecialisationName};
use crate::error::BootError;
use crate::installer::util::{index_of_capture, index_of_capture_spec};
use crate::pattern::{capture, pattern_capture, pattern_search, search};

pub mod bootable;
pub mod grub;
pub mod systemd_boot;

verus! {

/// The pattern of the link of a generation of the system profile.
pub open spec fn system_pattern() -> Seq<char> {
    "/profiles/system-(?P<generation>\\d+)-link"@
}

/// The pattern of the link of a generation of a named profile.
pub open spec fn profile_pattern() -> Seq<char> {
    "/system-profiles/(?P<profile>[^-]+)-(?P<generation>\\d+)-link"@
}

/// A specialisation of a generation with its descriptor, loaded.
#[derive(Debug, Default)]
pub struct Specialisation {
    pub name: SpecialisationName,
    pub bootspec: BootJson,
}

/// A generation with its descriptor, and the descriptors of its
/// specialisations in the order in which they are visited: each
/// specialisation before the specialisations of its own.
#[derive(Debug, Default)]
pub struct Generation {
    pub index: usize,
    pub profile: Option<String>,
    pub bootspec: BootJson,
    pub specialisations: Vec<Specialisation>,
}

/// What the name of a link says of its generation, over the results of the
/// searches: a link of a named profile where it has that form, else a link
/// of the system profile, else no generation.
pub open spec fn parse_generation_spec(generation: Seq<char>) -> Result<
    (usize, Option<Seq<char>>),
    BootError,
> {
    match pattern_search(profile_pattern(), generation) {
        None => Err(BootError::BadPattern),
        Some(true) => match (
            pattern_capture(profile_pattern(), false, false, generation, "generation"@),
            pattern_capture(profile_pattern(), false, false, generation, "profile"@),
        ) {
            (Some(index), Some(profile)) => link_parts_spec(index, profile),
            _ => Err(BootError::BadPattern),
        },
        Some(false) => match pattern_search(system_pattern(), generation) {
            None => Err(BootError::BadPattern),
            Some(true) => match pattern_capture(
                system_pattern(),
                false,
                false,
                generation,
                "generation"@,
            ) {
                Some(index) => match index_of_capture_spec(index) {
                    Ok(i) => Ok((i, None)),
                    Err(e) => Err(e),
                },
                None => Err(BootError::BadPattern),
            },
            Some(false) => Err(BootError::NotAGeneration),
        },
    }
}

/// Index and profile from what the searches of a profile link found.
pub open spec fn link_parts_spec(index: Option<Seq<char>>, profile: Option<Seq<char>>) -> Result<
    (usize, Option<Seq<char>>),
    BootError,
> {
    match index_of_capture_spec(index) {
        Err(e) => Err(e),
        Ok(i) => match profile {
            Some(name) => Ok((i, Some(name))),
            None => Err(BootError::NotAGeneration),
        },
    }
}

/// Puts together what the searches of a profile link found. The index must
/// be a number that fits the machine word, and the profile must be there.
pub fn link_parts(index: Option<String>, profile: Option<String>) -> (r: Result<
    (usize, Option<String>),
    BootError,
>)
    ensures
        match r {
            Ok(parts) => link_parts_spec(index.deep_view(), profile.deep_view()) == Ok::<
                (usize, Option<Seq<char>>),
                BootError,
            >((parts.0, parts.1.deep_view())),
            Err(e) => link_parts_spec(index.deep_view(), profile.deep_view()) == Err::<
                (usize, Option<Seq<char>>),
                BootError,
            >(e),
        },
{
    let i = match index_of_capture(index) {
        Ok(i) => i,
        Err(e) => {
            return Err(e);
        },
    };
    match profile {
        Some(name) => Ok((i, Some(name))),
        None => Err(BootError::NotAGeneration),
    }
}

/// Reads index and profile from the path of a generation link.
pub fn parse_generation(generation: &str) -> (r: Result<(usize, Option<String>), BootError>)
    ensures
        match r {
            Ok(parts) => parse_generation_spec(generation@) == Ok::<
                (usize, Option<Seq<char>>),
                BootError,
            >((parts.0, parts.1.deep_view())),
            Err(e) => parse_generation_spec(generation@) == Err::<
                (usize, Option<Seq<char>>),
                BootError,
            >(e),
        },
{
    let profile_link = match search(
        "/system-profiles/(?P<profile>[^-]+)-(?P<generation>\\d+)-link",
        generation,
    ) {
        Ok(found) => found,
        Err(_) => {
            return Err(BootError::BadPattern);
        },
    };
    if profile_link {
        let index = match capture(
            "/system-profiles/(?P<profile>[^-]+)-(?P<generation>\\d+)-link",
            false,
            false,
            generation,
            "generation",
        ) {
            Ok(index) => index,
            Err(_) => {
                return Err(BootError::BadPattern);
            },
        };
        let profile = match capture(
            "/system-profiles/(?P<profile>[^-]+)-(?P<generation>\\d+)-link",
            false,
            false,
            generation,
            "profile",
        ) {
            Ok(profile) => profile,
            Err(_) => {
                return Err(BootError::BadPattern);
            },
        };
        return link_parts(index, profile);
    }
    let system_link = match search("/profiles/system-(?P<generation>\\d+)-link", generation) {
        Ok(found) => found,
        Err(_) => {
            return Err(BootError::BadPattern);
        },
    };
    if system_link {
        match capture(
            "/profiles/system-(?P<generation>\\d+)-link",
            false,
            false,
            generation,
            "generation",
        ) {
            Ok(index) => match index_of_capture(index) {
                Ok(i) => Ok((i, None)),
                Err(e) => Err(e),
            },
            Err(_) => Err(BootError::BadPattern),
        }
    } else {
        Err(BootError::NotAGeneration)
    }
}

} // verus!
