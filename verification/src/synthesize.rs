//! Descriptors for generations that were built without one: what can be
//! told of a system from the files in its root.

use vstd::prelude::*;
use vstd::string::*;
use crate::bootspec::{
    with_entry, BootJson, BootJsonView, BootSpecPath, SpecialisationDescription,
    SpecialisationName, Specialisations, SystemConfigurationRoot, SCHEMA_VERSION,
};
use crate::text::{concat2, concat3, join_path, join_path_spec, owned, split, split_spec};

verus! {

/// What was read from the root of a system.
#[derive(Debug, Default, PartialEq)]
pub struct SystemFacts {
    /// The resolved root of the system.
    pub generation: String,
    /// What the file `nixos-version` holds.
    pub system_version: String,
    /// The resolved kernel.
    pub kernel: String,
    /// The name of the directory of kernel modules, which is the version of
    /// the kernel.
    pub kernel_version: String,
    /// What the file `kernel-params` holds.
    pub kernel_params: String,
    /// The resolved initrd.
    pub initrd: String,
}

/// The mathematical value of a [`SystemFacts`].
pub struct SystemFactsView {
    pub generation: Seq<char>,
    pub system_version: Seq<char>,
    pub kernel: Seq<char>,
    pub kernel_version: Seq<char>,
    pub kernel_params: Seq<char>,
    pub initrd: Seq<char>,
}

impl View for SystemFacts {
    type V = SystemFactsView;

    open spec fn view(&self) -> SystemFactsView {
        SystemFactsView {
            generation: self.generation@,
            system_version: self.system_version@,
            kernel: self.kernel@,
            kernel_version: self.kernel_version@,
            kernel_params: self.kernel_params@,
            initrd: self.initrd@,
        }
    }
}

/// The descriptor of the system that `facts` were read from. It names no
/// specialisations.
pub open spec fn describe_spec(facts: SystemFactsView) -> BootJsonView {
    BootJsonView {
        schema_version: SCHEMA_VERSION,
        label: "NixOS "@ + facts.system_version + " (Linux "@ + facts.kernel_version + ")"@,
        kernel: facts.kernel,
        kernel_params: split_spec(facts.kernel_params, ' '),
        init: join_path_spec(facts.generation, "init"@),
        initrd: facts.initrd,
        initrd_secrets: Some(join_path_spec(facts.generation, "append-initrd-secrets"@)),
        specialisation: Seq::<(Seq<char>, Seq<char>)>::empty(),
        toplevel: facts.generation,
    }
}

/// Describes a system from what was read from its root: the label from the
/// two versions, the kernel parameters cut at each blank, and the init
/// script and the secrets script below the root.
pub fn describe_system(facts: &SystemFacts) -> (r: BootJson)
    ensures
        r@ == describe_spec(facts@),
{
    let mut label = concat3("NixOS ", facts.system_version.as_str(), " (Linux ");
    label.append(facts.kernel_version.as_str());
    label.append(")");
    BootJson {
        schema_version: SCHEMA_VERSION,
        label,
        kernel: facts.kernel.clone(),
        kernel_params: split(facts.kernel_params.as_str(), ' '),
        init: join_path(facts.generation.as_str(), "init"),
        initrd: facts.initrd.clone(),
        initrd_secrets: Some(join_path(facts.generation.as_str(), "append-initrd-secrets")),
        specialisation: Specialisations::new(),
        toplevel: SystemConfigurationRoot(facts.generation.clone()),
    }
}

/// Where the descriptor of a specialisation comes from.
#[derive(Debug, PartialEq)]
pub enum SpecialisationSource {
    /// The specialisation has a descriptor of its own.
    Existing,
    /// It has none: one is made from what was read from its root.
    Described(SystemFacts),
}

/// A specialisation as it was found below a generation.
#[derive(Debug, PartialEq)]
pub struct FoundSpecialisation {
    /// The name of its directory.
    pub name: String,
    /// Its resolved root.
    pub toplevel: String,
    /// Where its descriptor comes from.
    pub source: SpecialisationSource,
}

/// A descriptor to write, and where.
#[derive(Debug, PartialEq)]
pub struct Synthesized {
    pub path: String,
    pub bootspec: BootJson,
}

/// What synthesis comes to: the directories to make, and the descriptors to
/// write, those of the specialisations first and that of the generation
/// last.
#[derive(Debug, PartialEq)]
pub struct Synthesis {
    pub directories: Vec<String>,
    pub files: Vec<Synthesized>,
}

/// Where the descriptor of a specialisation lies: with the specialisation
/// where it has one, else among the descriptors that are written.
pub open spec fn bootspec_path_spec(
    out_path: Seq<char>,
    name: Seq<char>,
    toplevel: Seq<char>,
    existing: bool,
) -> Seq<char> {
    if existing {
        join_path_spec(toplevel, "boot.v1.json"@)
    } else {
        join_path_spec(join_path_spec(out_path, "specialisation"@), name + ".json"@)
    }
}

/// Where the descriptor of a specialisation lies.
pub fn bootspec_path(out_path: &str, found: &FoundSpecialisation) -> (r: String)
    ensures
        r@ == bootspec_path_spec(
            out_path@,
            found.name@,
            found.toplevel@,
            found.source is Existing,
        ),
{
    match &found.source {
        SpecialisationSource::Existing => join_path(found.toplevel.as_str(), "boot.v1.json"),
        SpecialisationSource::Described(_) => {
            let dir = join_path(out_path, "specialisation");
            let file = concat2(found.name.as_str(), ".json");
            join_path(dir.as_str(), file.as_str())
        },
    }
}

/// The specialisations that the descriptor of the generation names, after
/// those found have been entered one after the other.
pub open spec fn named_specialisations(out_path: Seq<char>, found: Seq<FoundSpecialisation>) -> Seq<
    (Seq<char>, Seq<char>),
>
    decreases found.len(),
{
    if found.len() == 0 {
        Seq::<(Seq<char>, Seq<char>)>::empty()
    } else {
        with_entry(
            named_specialisations(out_path, found.drop_last()),
            found.last().name@,
            bootspec_path_spec(
                out_path,
                found.last().name@,
                found.last().toplevel@,
                found.last().source is Existing,
            ),
        )
    }
}

/// The descriptors written for specialisations: one for each that has none
/// of its own, in the order found.
pub open spec fn written_specialisations(out_path: Seq<char>, found: Seq<FoundSpecialisation>) -> Seq<
    (Seq<char>, BootJsonView),
>
    decreases found.len(),
{
    if found.len() == 0 {
        Seq::<(Seq<char>, BootJsonView)>::empty()
    } else {
        let before = written_specialisations(out_path, found.drop_last());
        match found.last().source {
            SpecialisationSource::Existing => before,
            SpecialisationSource::Described(facts) => before.push(
                (
                    bootspec_path_spec(out_path, found.last().name@, found.last().toplevel@, false),
                    describe_spec(facts@),
                ),
            ),
        }
    }
}

/// The paths and descriptors of what is written.
pub open spec fn written_views(files: Seq<Synthesized>) -> Seq<(Seq<char>, BootJsonView)> {
    Seq::new(files.len(), |i: int| (files[i].path@, files[i].bootspec@))
}

/// Decides what is written to give the generation described by `facts` a
/// descriptor below `out_path`: a descriptor for each specialisation that
/// has none, and last the descriptor of the generation, which names every
/// specialisation with where its descriptor lies.
pub fn synthesize_schema_from_generation(
    facts: &SystemFacts,
    specialisations: &Vec<FoundSpecialisation>,
    out_path: &str,
) -> (r: Synthesis)
    ensures
        r.directories.deep_view() == seq![
            out_path@,
            join_path_spec(out_path@, "specialisation"@),
        ],
        written_views(r.files@) == written_specialisations(out_path@, specialisations@).push(
            (
                join_path_spec(out_path@, "boot.v1.json"@),
                BootJsonView {
                    specialisation: named_specialisations(out_path@, specialisations@),
                    ..describe_spec(facts@)
                },
            ),
        ),
{
    let mut directories: Vec<String> = Vec::new();
    directories.push(owned(out_path));
    directories.push(join_path(out_path, "specialisation"));
    assert(directories.deep_view() =~= seq![
        out_path@,
        join_path_spec(out_path@, "specialisation"@),
    ]);
    let mut toplevelspec = describe_system(facts);
    let mut files: Vec<Synthesized> = Vec::new();
    let mut i: usize = 0;
    assert(specialisations@.take(0) =~= Seq::<FoundSpecialisation>::empty());
    assert(written_views(files@) =~= written_specialisations(
        out_path@,
        specialisations@.take(0),
    ));
    while i < specialisations.len()
        invariant
            i <= specialisations.len(),
            toplevelspec@ == (BootJsonView {
                specialisation: named_specialisations(out_path@, specialisations@.take(i as int)),
                ..describe_spec(facts@)
            }),
            written_views(files@) == written_specialisations(
                out_path@,
                specialisations@.take(i as int),
            ),
        decreases specialisations.len() - i,
    {
        let ghost upto = specialisations@.take(i as int + 1);
        let ghost sofar = written_views(files@);
        proof {
            assert(upto.drop_last() =~= specialisations@.take(i as int));
            assert(upto.last() == specialisations@[i as int]);
        }
        let found = &specialisations[i];
        let path = bootspec_path(out_path, found);
        if let SpecialisationSource::Described(sub) = &found.source {
            let subspec = describe_system(sub);
            let ghost v = (path@, subspec@);
            files.push(Synthesized { path: path.clone(), bootspec: subspec });
            assert(written_views(files@) =~= sofar.push(v));
        }
        toplevelspec.specialisation.insert(
            SpecialisationName(found.name.clone()),
            SpecialisationDescription { bootspec: BootSpecPath(path) },
        );
        i += 1;
    }
    assert(specialisations@.take(specialisations.len() as int) =~= specialisations@);
    let ghost sofar = written_views(files@);
    let ghost last = (join_path_spec(out_path@, "boot.v1.json"@), toplevelspec@);
    files.push(Synthesized { path: join_path(out_path, "boot.v1.json"), bootspec: toplevelspec });
    assert(written_views(files@) =~= sofar.push(last));
    Synthesis { directories, files }
}

} // verus!
