//! What can be booted: a toplevel with its kernel and initrd, or the same
//! packed into one unified image.

use vstd::prelude::*;
use vstd::string::*;
use super::{Generation, Specialisation};
use crate::bootspec::{BootJson, BootJsonView, SpecialisationName, SystemConfigurationRoot};
use crate::decimal::{decimal, push_decimal};
use crate::error::BootError;
use crate::text::{clone_opt_string, clone_strings, concat2, concat3, join, join_spec, owned};

verus! {

/// A toplevel that can be booted: a generation, or one of its
/// specialisations.
#[derive(Debug, Default)]
pub struct BootableToplevel {
    /// The label of the system.
    pub label: String,
    /// The path to the kernel.
    pub kernel: String,
    /// The kernel parameters.
    pub kernel_params: Vec<String>,
    /// The path to the init script.
    pub init: String,
    /// The path to the initrd.
    pub initrd: String,
    /// The toplevel of the system.
    pub toplevel: SystemConfigurationRoot,
    /// The name of the specialisation, for a specialisation.
    pub specialisation_name: Option<SpecialisationName>,
    /// The index of the generation.
    pub generation_index: usize,
    /// The profile of the generation.
    pub profile_name: Option<String>,
}

/// The mathematical value of a [`BootableToplevel`].
pub struct BootableToplevelView {
    pub label: Seq<char>,
    pub kernel: Seq<char>,
    pub kernel_params: Seq<Seq<char>>,
    pub init: Seq<char>,
    pub initrd: Seq<char>,
    pub toplevel: Seq<char>,
    pub specialisation_name: Option<Seq<char>>,
    pub generation_index: usize,
    pub profile_name: Option<Seq<char>>,
}

impl View for BootableToplevel {
    type V = BootableToplevelView;

    open spec fn view(&self) -> BootableToplevelView {
        BootableToplevelView {
            label: self.label@,
            kernel: self.kernel@,
            kernel_params: self.kernel_params.deep_view(),
            init: self.init@,
            initrd: self.initrd@,
            toplevel: self.toplevel@,
            specialisation_name: self.specialisation_name.deep_view(),
            generation_index: self.generation_index,
            profile_name: self.profile_name.deep_view(),
        }
    }
}

impl DeepView for BootableToplevel {
    type V = BootableToplevelView;

    open spec fn deep_view(&self) -> BootableToplevelView {
        self@
    }
}

impl BootableToplevelView {
    /// The title of the entry.
    pub open spec fn title(self) -> Seq<char> {
        match self.specialisation_name {
            Some(name) => "NixOS ("@ + name + ")"@,
            None => "NixOS"@,
        }
    }

    /// The version line of the entry, for a toplevel built on `date`.
    pub open spec fn version(self, date: Seq<char>) -> Seq<char> {
        "Generation "@ + decimal(self.generation_index as nat) + " "@ + self.label + (
        match self.specialisation_name {
            Some(name) => ", Specialisation "@ + name,
            None => Seq::<char>::empty(),
        }) + ", Built on "@ + date
    }

    /// The kernel command line.
    pub open spec fn command_line(self) -> Seq<char> {
        "init="@ + self.init + " "@ + join_spec(self.kernel_params, " "@)
    }
}

/// The day on which the second `ctime` since the epoch falls, in local
/// time, written as year, month and day.
///
/// Trusted: calls `chrono::Local.timestamp_opt(ctime, 0)`, takes
/// `earliest()` and formats it with `%Y-%m-%d`. A second beyond the calendar
/// has no date: `timestamp_opt` answers it with none and asks nothing
/// further of it, so every second is admitted. The day depends on the time
/// zone of the machine, so nothing is claimed of the text.
#[verifier::external_body]
fn local_date(ctime: i64) -> (date: Option<String>) {
    match chrono::TimeZone::timestamp_opt(&chrono::Local, ctime, 0).earliest() {
        Some(day) => Some(day.format("%Y-%m-%d").to_string()),
        None => None,
    }
}

impl BootableToplevel {
    /// The title of the entry: the name of the distribution, with the
    /// specialisation in brackets for a specialisation.
    pub fn title(&self) -> (r: String)
        ensures
            r@ == self@.title(),
    {
        match &self.specialisation_name {
            Some(name) => concat3("NixOS (", name.0.as_str(), ")"),
            None => owned("NixOS"),
        }
    }

    /// The version line of the entry, for a toplevel built on `date`.
    pub fn version_built_on(&self, date: &str) -> (r: String)
        ensures
            r@ == self@.version(date@),
    {
        let mut r = owned("Generation ");
        push_decimal(&mut r, self.generation_index);
        r.append(" ");
        r.append(self.label.as_str());
        if let Some(name) = &self.specialisation_name {
            r.append(", Specialisation ");
            r.append(name.0.as_str());
        }
        r.append(", Built on ");
        r.append(date);
        assert(r@ =~= self@.version(date@));
        r
    }

    /// The version line of the entry, for a toplevel whose root was last
    /// changed at the second `ctime`. Whether the second has a date, and
    /// which, is for the calendar and the time zone of the machine to say:
    /// every second is handed to the calendar as it came, the line is the
    /// line that `version_built_on` makes of the date that came back, and a
    /// second without a date is the one error.
    pub fn version(&self, ctime: i64) -> (r: Result<String, BootError>)
        ensures
            match r {
                Ok(line) => exists|date: Seq<char>| line@ == self@.version(date),
                Err(e) => e == BootError::BadTimestamp,
            },
    {
        match local_date(ctime) {
            Some(date) => Ok(self.version_built_on(date.as_str())),
            None => Err(BootError::BadTimestamp),
        }
    }

    /// The kernel command line: the init script, then the parameters.
    pub fn command_line(&self) -> (r: String)
        ensures
            r@ == self@.command_line(),
    {
        let params = join(&self.kernel_params, " ");
        let mut r = concat3("init=", self.init.as_str(), " ");
        r.append(params.as_str());
        r
    }
}

/// A toplevel that boots from one unified image.
#[derive(Debug)]
pub struct EfiProgram {
    pub source: BootableToplevel,
}

impl EfiProgram {
    pub fn new(source: BootableToplevel) -> (r: Self)
        ensures
            r.source == source,
    {
        Self { source }
    }

    /// The arguments for the image builder that makes the unified image of
    /// this toplevel at `outpath`, the kernel command line being in the file
    /// `cmdline`.
    pub fn ukify_args(&self, outpath: &str, cmdline: &str) -> (args: Vec<String>)
        ensures
            args.deep_view() == ukify_args_spec(self.source.toplevel@, outpath@, cmdline@),
    {
        ukify_args(self.source.toplevel.0.as_str(), outpath, cmdline)
    }
}

/// The arguments with which the image builder makes the unified image of the
/// toplevel at `root` at `outpath`, the kernel command line being in the
/// file `cmdline`.
pub open spec fn ukify_args_spec(root: Seq<char>, outpath: Seq<char>, cmdline: Seq<char>) -> Seq<
    Seq<char>,
> {
    seq![
        "build"@,
        "--linux="@ + root + "/kernel"@,
        "--initrd="@ + root + "/initrd"@,
        "--cmdline=@"@ + cmdline,
        "--os-release=@"@ + root + "/etc/os-release"@,
        "--output="@ + outpath,
    ]
}

/// The arguments for the image builder.
pub fn ukify_args(root: &str, outpath: &str, cmdline: &str) -> (args: Vec<String>)
    ensures
        args.deep_view() == ukify_args_spec(root@, outpath@, cmdline@),
{
    let mut args: Vec<String> = Vec::new();
    args.push(owned("build"));
    args.push(concat3("--linux=", root, "/kernel"));
    args.push(concat3("--initrd=", root, "/initrd"));
    args.push(concat2("--cmdline=@", cmdline));
    args.push(concat3("--os-release=@", root, "/etc/os-release"));
    args.push(concat2("--output=", outpath));
    assert(args.deep_view() =~= ukify_args_spec(root@, outpath@, cmdline@));
    args
}

/// Something that can be booted.
#[derive(Debug)]
pub enum Bootable {
    Linux(BootableToplevel),
    Efi(EfiProgram),
}

/// The toplevel that a descriptor stands for.
pub open spec fn toplevel_spec(
    bootspec: BootJsonView,
    specialisation_name: Option<Seq<char>>,
    index: usize,
    profile: Option<Seq<char>>,
) -> BootableToplevelView {
    BootableToplevelView {
        label: bootspec.label,
        kernel: bootspec.kernel,
        kernel_params: bootspec.kernel_params,
        init: bootspec.init,
        initrd: bootspec.initrd,
        toplevel: bootspec.toplevel,
        specialisation_name,
        generation_index: index,
        profile_name: profile,
    }
}

fn toplevel_of(
    bootspec: &BootJson,
    specialisation_name: Option<SpecialisationName>,
    index: usize,
    profile: &Option<String>,
) -> (r: BootableToplevel)
    ensures
        r@ == toplevel_spec(bootspec@, specialisation_name.deep_view(), index, profile.deep_view()),
{
    BootableToplevel {
        label: bootspec.label.clone(),
        kernel: bootspec.kernel.clone(),
        kernel_params: clone_strings(&bootspec.kernel_params),
        init: bootspec.init.clone(),
        initrd: bootspec.initrd.clone(),
        toplevel: bootspec.toplevel.clone(),
        specialisation_name,
        generation_index: index,
        profile_name: clone_opt_string(profile),
    }
}

/// The mathematical value of a [`Generation`]: its index and profile, its
/// descriptor, and name and descriptor of each specialisation.
pub struct GenerationView {
    pub index: usize,
    pub profile: Option<Seq<char>>,
    pub bootspec: BootJsonView,
    pub specialisations: Seq<(Seq<char>, BootJsonView)>,
}

/// The value of a generation.
pub open spec fn generation_view(g: Generation) -> GenerationView {
    GenerationView {
        index: g.index,
        profile: g.profile.deep_view(),
        bootspec: g.bootspec@,
        specialisations: Seq::new(
            g.specialisations.len() as nat,
            |i: int| (g.specialisations@[i].name@, g.specialisations@[i].bootspec@),
        ),
    }
}

/// The values of generations.
pub open spec fn generation_views(inputs: Seq<Generation>) -> Seq<GenerationView> {
    Seq::new(inputs.len(), |i: int| generation_view(inputs[i]))
}

/// The toplevels of one generation: its own, under `name`, then one for
/// each of its specialisations.
pub open spec fn generation_toplevels(g: GenerationView, name: Option<Seq<char>>) -> Seq<
    BootableToplevelView,
> {
    seq![toplevel_spec(g.bootspec, name, g.index, g.profile)] + Seq::new(
        g.specialisations.len(),
        |i: int|
            toplevel_spec(
                g.specialisations[i].1,
                Some(g.specialisations[i].0),
                g.index,
                g.profile,
            ),
    )
}

/// The toplevels of generations, generation after generation.
pub open spec fn flatten_spec(inputs: Seq<GenerationView>, name: Option<Seq<char>>) -> Seq<
    BootableToplevelView,
>
    decreases inputs.len(),
{
    if inputs.len() == 0 {
        Seq::<BootableToplevelView>::empty()
    } else {
        flatten_spec(inputs.drop_last(), name) + generation_toplevels(inputs.last(), name)
    }
}

/// Turns generations into everything that can be booted: each generation,
/// and after it each of its specialisations.
pub fn flatten(inputs: Vec<Generation>) -> (r: Result<Vec<BootableToplevel>, BootError>)
    ensures
        r is Ok,
        r->Ok_0.deep_view() == flatten_spec(generation_views(inputs@), None),
{
    flatten_impl(inputs, None)
}

/// Turns generations into everything that can be booted. A generation
/// carries the name given here; each of its specialisations carries its
/// own.
pub fn flatten_impl(inputs: Vec<Generation>, specialisation_name: Option<SpecialisationName>) -> (r:
    Result<Vec<BootableToplevel>, BootError>)
    ensures
        r is Ok,
        r->Ok_0.deep_view() == flatten_spec(
            generation_views(inputs@),
            specialisation_name.deep_view(),
        ),
{
    let mut toplevels: Vec<BootableToplevel> = Vec::new();
    let ghost all = generation_views(inputs@);
    let ghost outer = specialisation_name.deep_view();
    let mut i: usize = 0;
    assert(all.take(0) =~= Seq::<GenerationView>::empty());
    assert(toplevels.deep_view() =~= flatten_spec(all.take(0), outer));
    while i < inputs.len()
        invariant
            i <= inputs.len(),
            all == generation_views(inputs@),
            outer == specialisation_name.deep_view(),
            toplevels.deep_view() == flatten_spec(all.take(i as int), outer),
        decreases inputs.len() - i,
    {
        let input = &inputs[i];
        let ghost g = generation_view(*input);
        let ghost before = toplevels.deep_view();
        let ghost mine = generation_toplevels(g, outer);
        proof {
            assert(all.take(i as int + 1).drop_last() =~= all.take(i as int));
            assert(all.take(i as int + 1).last() == g);
        }
        let name = match &specialisation_name {
            Some(name) => Some(name.clone()),
            None => None,
        };
        toplevels.push(toplevel_of(&input.bootspec, name, input.index, &input.profile));
        assert(toplevels.deep_view() =~= before + mine.take(1));
        let mut j: usize = 0;
        while j < input.specialisations.len()
            invariant
                j <= input.specialisations.len(),
                g == generation_view(*input),
                mine == generation_toplevels(g, outer),
                toplevels.deep_view() == before + mine.take(j as int + 1),
            decreases input.specialisations.len() - j,
        {
            let ghost sofar = toplevels.deep_view();
            let spec = &input.specialisations[j];
            toplevels.push(
                toplevel_of(&spec.bootspec, Some(spec.name.clone()), input.index, &input.profile),
            );
            j += 1;
            proof {
                assert(toplevels.deep_view() =~= sofar.push(mine[j as int]));
                assert(mine.take(j as int + 1) =~= mine.take(j as int).push(mine[j as int]));
            }
        }
        assert(mine.take(input.specialisations.len() as int + 1) =~= mine);
        i += 1;
    }
    assert(all.take(inputs.len() as int) =~= all);
    Ok(toplevels)
}

} // verus!
