//! The entries of one generation and its specialisations, straight from
//! their descriptors.

use vstd::prelude::*;
use vstd::string::*;
use super::{
    efi_entry, efi_entry_spec, linux_entry, linux_entry_spec, Contents, ContentsView,
};
use crate::bootspec::{BootJson, BootJsonView, SpecialisationName};
use crate::error::BootError;
use crate::generator::bootable::{toplevel_spec, BootableToplevel, BootableToplevelView, EfiProgram};
use crate::generator::Specialisation;
use crate::text::{clone_opt_string, clone_strings, owned};

verus! {

/// Entry files with what they consist of, in the order in which they were
/// made.
pub type Entries = Vec<(String, Contents)>;

/// The version line of an entry built on `date`; a signed entry says so.
pub open spec fn entry_version_spec(t: BootableToplevelView, date: Seq<char>, signed: bool) -> Seq<
    char,
> {
    if signed {
        t.version(date) + " (Secure Boot)"@
    } else {
        t.version(date)
    }
}

/// The entry of one descriptor: a unified image where the entry is signed,
/// else kernel and initrd. None where a unified image is asked of a
/// toplevel that is too short to hold a store hash.
pub open spec fn entry_impl_spec(
    json: BootJsonView,
    generation: usize,
    profile: Option<Seq<char>>,
    signed: bool,
    specialisation: Option<Seq<char>>,
    machine_id: Seq<char>,
    date: Seq<char>,
) -> Option<(Seq<char>, ContentsView)> {
    let t = toplevel_spec(json, specialisation, generation, profile);
    if signed {
        efi_entry_spec(t, machine_id, entry_version_spec(t, date, signed))
    } else {
        Some(linux_entry_spec(t, machine_id, entry_version_spec(t, date, signed)))
    }
}

/// Makes the entry of one descriptor, for the generation itself or for the
/// specialisation named.
pub fn entry_impl(
    json: &BootJson,
    generation: usize,
    profile: &Option<String>,
    signed: bool,
    specialisation: Option<&str>,
    machine_id: &str,
    date: &str,
) -> (r: Result<(String, Contents), BootError>)
    ensures
        match r {
            Ok(entry) => entry_impl_spec(
                json@,
                generation,
                profile.deep_view(),
                signed,
                match specialisation {
                    Some(name) => Some(name@),
                    None => None,
                },
                machine_id@,
                date@,
            ) == Some((entry.0@, entry.1@)),
            Err(e) => e == BootError::NotAStorePath && entry_impl_spec(
                json@,
                generation,
                profile.deep_view(),
                signed,
                match specialisation {
                    Some(name) => Some(name@),
                    None => None,
                },
                machine_id@,
                date@,
            ) is None,
        },
{
    let toplevel = BootableToplevel {
        label: json.label.clone(),
        kernel: json.kernel.clone(),
        kernel_params: clone_strings(&json.kernel_params),
        init: json.init.clone(),
        initrd: json.initrd.clone(),
        toplevel: json.toplevel.clone(),
        specialisation_name: match specialisation {
            Some(name) => Some(SpecialisationName(owned(name))),
            None => None,
        },
        generation_index: generation,
        profile_name: clone_opt_string(profile),
    };
    let mut version = toplevel.version_built_on(date);
    if signed {
        version.append(" (Secure Boot)");
        let efi = EfiProgram::new(toplevel);
        efi_entry(&efi, machine_id, version.as_str())
    } else {
        Ok(linux_entry(&toplevel, machine_id, version.as_str()))
    }
}

/// The entries of a generation: its own, then those of its
/// specialisations; the first that cannot be made decides.
pub open spec fn entries_spec(
    json: BootJsonView,
    generation: usize,
    profile: Option<Seq<char>>,
    signed: bool,
    specialisations: Seq<(Seq<char>, BootJsonView)>,
    machine_id: Seq<char>,
    date: Seq<char>,
) -> Option<Seq<(Seq<char>, ContentsView)>>
    decreases specialisations.len(),
{
    if specialisations.len() == 0 {
        match entry_impl_spec(json, generation, profile, signed, None, machine_id, date) {
            Some(own) => Some(seq![own]),
            None => None,
        }
    } else {
        match entries_spec(
            json,
            generation,
            profile,
            signed,
            specialisations.drop_last(),
            machine_id,
            date,
        ) {
            None => None,
            Some(before) => match entry_impl_spec(
                specialisations.last().1,
                generation,
                profile,
                signed,
                Some(specialisations.last().0),
                machine_id,
                date,
            ) {
                Some(next) => Some(before.push(next)),
                None => None,
            },
        }
    }
}

/// The names and descriptors of specialisations.
pub open spec fn specialisation_views(specs: Seq<Specialisation>) -> Seq<(Seq<char>, BootJsonView)> {
    Seq::new(specs.len(), |i: int| (specs[i].name@, specs[i].bootspec@))
}

/// Makes the entries of a generation and of its specialisations, all built
/// on `date`.
pub fn entry(
    json: &BootJson,
    generation: usize,
    profile: &Option<String>,
    signed: bool,
    specialisations: &Vec<Specialisation>,
    machine_id: &str,
    date: &str,
) -> (r: Result<Entries, BootError>)
    ensures
        match r {
            Ok(entries) => entries_spec(
                json@,
                generation,
                profile.deep_view(),
                signed,
                specialisation_views(specialisations@),
                machine_id@,
                date@,
            ) == Some(entries.deep_view()),
            Err(e) => e == BootError::NotAStorePath && entries_spec(
                json@,
                generation,
                profile.deep_view(),
                signed,
                specialisation_views(specialisations@),
                machine_id@,
                date@,
            ) is None,
        },
{
    let ghost all = specialisation_views(specialisations@);
    let ghost p = profile.deep_view();
    let mut entries: Entries = Vec::new();
    proof {
        assert(all.take(0) =~= Seq::<(Seq<char>, BootJsonView)>::empty());
        lemma_entries_none_stays(json@, generation, p, signed, all, machine_id@, date@, 0);
    }
    match entry_impl(json, generation, profile, signed, None, machine_id, date) {
        Ok(own) => {
            let ghost v = (own.0@, own.1@);
            entries.push(own);
            assert(entries.deep_view() =~= seq![v]);
        },
        Err(e) => {
            return Err(e);
        },
    }
    let mut i: usize = 0;
    while i < specialisations.len()
        invariant
            i <= specialisations.len(),
            all == specialisation_views(specialisations@),
            p == profile.deep_view(),
            entries_spec(json@, generation, p, signed, all.take(i as int), machine_id@, date@)
                == Some(entries.deep_view()),
        decreases specialisations.len() - i,
    {
        let ghost sofar = entries.deep_view();
        let ghost upto = all.take(i as int + 1);
        proof {
            assert(upto.drop_last() =~= all.take(i as int));
            assert(upto.last() == all[i as int]);
            lemma_entries_none_stays(
                json@,
                generation,
                p,
                signed,
                all,
                machine_id@,
                date@,
                i as int + 1,
            );
        }
        let spec = &specialisations[i];
        match entry_impl(
            &spec.bootspec,
            generation,
            profile,
            signed,
            Some(spec.name.0.as_str()),
            machine_id,
            date,
        ) {
            Ok(next) => {
                let ghost v = (next.0@, next.1@);
                entries.push(next);
                assert(entries.deep_view() =~= sofar.push(v));
            },
            Err(e) => {
                return Err(e);
            },
        }
        i += 1;
    }
    assert(all.take(specialisations.len() as int) =~= all);
    Ok(entries)
}

proof fn lemma_entries_none_stays(
    json: BootJsonView,
    generation: usize,
    profile: Option<Seq<char>>,
    signed: bool,
    specialisations: Seq<(Seq<char>, BootJsonView)>,
    machine_id: Seq<char>,
    date: Seq<char>,
    n: int,
)
    requires
        0 <= n <= specialisations.len(),
    ensures
        entries_spec(json, generation, profile, signed, specialisations.take(n), machine_id, date)
            is None ==> entries_spec(
            json,
            generation,
            profile,
            signed,
            specialisations,
            machine_id,
            date,
        ) is None,
    decreases specialisations.len() - n,
{
    if n == specialisations.len() {
        assert(specialisations.take(n) =~= specialisations);
    } else if entries_spec(
        json,
        generation,
        profile,
        signed,
        specialisations.take(n),
        machine_id,
        date,
    ) is None {
        assert(specialisations.take(n + 1).drop_last() =~= specialisations.take(n));
        lemma_entries_none_stays(
            json,
            generation,
            profile,
            signed,
            specialisations,
            machine_id,
            date,
            n + 1,
        );
    }
}

} // verus!
