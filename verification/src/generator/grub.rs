//! GRUB. Nothing is generated for it yet.

use vstd::prelude::*;
use crate::bootspec::BootJson;
use crate::error::BootError;

verus! {

/// The entry of a generation. GRUB is not supported: nothing is written and
/// nothing fails.
pub fn entry(json: &BootJson, generation: usize, profile: &Option<String>) -> (r: Result<
    (),
    BootError,
>)
    ensures
        r is Ok,
{
    entry_impl(json, generation, profile, None)
}

/// The entry of a generation or of one of its specialisations. GRUB is not
/// supported: nothing is written and nothing fails.
pub fn entry_impl(
    json: &BootJson,
    generation: usize,
    profile: &Option<String>,
    specialisation: Option<&str>,
) -> (r: Result<(), BootError>)
    ensures
        r is Ok,
{
    Ok(())
}

} // verus!
