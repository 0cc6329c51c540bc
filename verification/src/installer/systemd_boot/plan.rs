//! The plan: every step of an installation, decided before anything on the
//! partition is touched.

use vstd::prelude::*;
use vstd::string::*;
use super::version::systemd::SystemdVersion;
use super::version::systemd_boot::SystemdBootVersion;
use crate::error::BootError;
use crate::installer::files::{
    FileToReplace, FileToReplaceView, IdentifiedFiles, IdentifiedFilesView,
};
use crate::installer::options::{Args, ArgsView};
use crate::installer::secure_boot::{SigningInfo, SigningInfoView};
use crate::installer::util::{clone_generations, Generation, GenerationView};
use crate::text::{join_path, join_path_spec, owned, same_text};

verus! {

/// One step of an installation.
#[derive(Debug, PartialEq)]
#[allow(inconsistent_fields)]
pub enum SystemdBootPlanState {
    /// Nothing has been done yet.
    Start,
    /// Install the boot manager anew.
    Install {
        /// The configuration that is already on the partition, if any.
        loader: Option<String>,
        bootctl: String,
        esp: String,
        can_touch_efi_vars: bool,
    },
    /// Update the boot manager where it is older than the tool.
    Update {
        bootctl: String,
        esp: String,
        /// The version found on the partition, if any.
        bootloader_version: Option<SystemdBootVersion>,
        /// The version of the tool.
        systemd_version: SystemdVersion,
    },
    /// Delete what no kept generation needs, below each of `paths`.
    PruneFiles { wanted_generations: Vec<Generation>, paths: Vec<String> },
    /// Write the boot manager's configuration into the staging tree.
    WriteLoader {
        path: String,
        timeout: Option<usize>,
        index: usize,
        editor: bool,
        console_mode: String,
    },
    /// Drop each staged file whose counterpart on the partition holds the
    /// same content.
    ReplaceFiles { signing_info: Option<SigningInfo>, to_replace: Vec<FileToReplace> },
    /// Sign the images.
    SignFiles { signing_info: SigningInfo, to_sign: Vec<String> },
    /// Merge the staging tree into the partition.
    CopyToEsp { generated_entries: String, esp: String },
    /// Ask for the partition to be written out.
    Syncfs { esp: String },
    /// Nothing is left to do.
    End,
}

/// The mathematical value of a [`SystemdBootPlanState`].
#[allow(inconsistent_fields)]
pub enum PlanStateView {
    Start,
    Install { loader: Option<Seq<char>>, bootctl: Seq<char>, esp: Seq<char>, can_touch_efi_vars: bool },
    Update {
        bootctl: Seq<char>,
        esp: Seq<char>,
        bootloader_version: Option<usize>,
        systemd_version: Seq<char>,
    },
    PruneFiles { wanted_generations: Seq<GenerationView>, paths: Seq<Seq<char>> },
    WriteLoader {
        path: Seq<char>,
        timeout: Option<usize>,
        index: usize,
        editor: bool,
        console_mode: Seq<char>,
    },
    ReplaceFiles { signing_info: Option<SigningInfoView>, to_replace: Seq<FileToReplaceView> },
    SignFiles { signing_info: SigningInfoView, to_sign: Seq<Seq<char>> },
    CopyToEsp { generated_entries: Seq<char>, esp: Seq<char> },
    Syncfs { esp: Seq<char> },
    End,
}

impl View for SystemdBootPlanState {
    type V = PlanStateView;

    open spec fn view(&self) -> PlanStateView {
        match self {
            SystemdBootPlanState::Start => PlanStateView::Start,
            SystemdBootPlanState::Install { loader, bootctl, esp, can_touch_efi_vars } =>
                PlanStateView::Install {
                    loader: loader.deep_view(),
                    bootctl: bootctl@,
                    esp: esp@,
                    can_touch_efi_vars: *can_touch_efi_vars,
                },
            SystemdBootPlanState::Update { bootctl, esp, bootloader_version, systemd_version } =>
                PlanStateView::Update {
                    bootctl: bootctl@,
                    esp: esp@,
                    bootloader_version: bootloader_version.deep_view(),
                    systemd_version: systemd_version@,
                },
            SystemdBootPlanState::PruneFiles { wanted_generations, paths } =>
                PlanStateView::PruneFiles {
                    wanted_generations: wanted_generations.deep_view(),
                    paths: paths.deep_view(),
                },
            SystemdBootPlanState::WriteLoader { path, timeout, index, editor, console_mode } =>
                PlanStateView::WriteLoader {
                    path: path@,
                    timeout: *timeout,
                    index: *index,
                    editor: *editor,
                    console_mode: console_mode@,
                },
            SystemdBootPlanState::ReplaceFiles { signing_info, to_replace } =>
                PlanStateView::ReplaceFiles {
                    signing_info: signing_info.deep_view(),
                    to_replace: to_replace.deep_view(),
                },
            SystemdBootPlanState::SignFiles { signing_info, to_sign } => PlanStateView::SignFiles {
                signing_info: signing_info@,
                to_sign: to_sign.deep_view(),
            },
            SystemdBootPlanState::CopyToEsp { generated_entries, esp } => PlanStateView::CopyToEsp {
                generated_entries: generated_entries@,
                esp: esp@,
            },
            SystemdBootPlanState::Syncfs { esp } => PlanStateView::Syncfs { esp: esp@ },
            SystemdBootPlanState::End => PlanStateView::End,
        }
    }
}

impl DeepView for SystemdBootPlanState {
    type V = PlanStateView;

    open spec fn deep_view(&self) -> PlanStateView {
        self@
    }
}

/// A plan: its steps in the order in which they are carried out.
pub type SystemdBootPlan = Vec<SystemdBootPlanState>;

/// All that a plan is made from. Everything here was observed or decided
/// before planning: planning itself looks at nothing else.
pub struct PlanArgs<'a> {
    pub args: &'a Args,
    pub bootctl: &'a str,
    pub esp: &'a str,
    pub wanted_generations: &'a Vec<Generation>,
    /// The resolved path of the toplevel that is to boot by default; `None`
    /// where it could not be resolved.
    pub toplevel: Option<String>,
    pub identified_files: IdentifiedFiles,
    /// Whether the partition already holds a boot manager configuration.
    pub loader_exists: bool,
    /// The version of the boot manager found on the partition, if any.
    pub bootloader_version: Option<SystemdBootVersion>,
    /// The version of the tool.
    pub systemd_version: SystemdVersion,
}

/// The mathematical value of a [`PlanArgs`].
pub struct PlanArgsView {
    pub args: ArgsView,
    pub bootctl: Seq<char>,
    pub esp: Seq<char>,
    pub wanted_generations: Seq<GenerationView>,
    pub toplevel: Option<Seq<char>>,
    pub identified_files: IdentifiedFilesView,
    pub loader_exists: bool,
    pub bootloader_version: Option<usize>,
    pub systemd_version: Seq<char>,
}

impl<'a> View for PlanArgs<'a> {
    type V = PlanArgsView;

    open spec fn view(&self) -> PlanArgsView {
        PlanArgsView {
            args: self.args@,
            bootctl: self.bootctl@,
            esp: self.esp@,
            wanted_generations: self.wanted_generations.deep_view(),
            toplevel: self.toplevel.deep_view(),
            identified_files: self.identified_files@,
            loader_exists: self.loader_exists,
            bootloader_version: self.bootloader_version.deep_view(),
            systemd_version: self.systemd_version@,
        }
    }
}

/// The position of the generation that boots by default: the last of the
/// kept generations whose root is the toplevel asked for.
pub open spec fn default_generation_spec(
    wanted: Seq<GenerationView>,
    toplevel: Option<Seq<char>>,
) -> Option<int>
    decreases wanted.len(),
{
    if wanted.len() == 0 {
        None
    } else if toplevel == Some(wanted.last().path) {
        Some(wanted.len() - 1)
    } else {
        default_generation_spec(wanted.drop_last(), toplevel)
    }
}

/// Looks for the generation that boots by default, the newest first.
pub fn find_default_generation(wanted: &Vec<Generation>, toplevel: &Option<String>) -> (r: Option<
    usize,
>)
    ensures
        match r {
            Some(i) => default_generation_spec(wanted.deep_view(), toplevel.deep_view()) == Some(
                i as int,
            ) && i < wanted.len(),
            None => default_generation_spec(wanted.deep_view(), toplevel.deep_view()) is None,
        },
{
    let target = match toplevel {
        Some(target) => target,
        None => {
            proof {
                lemma_no_toplevel_no_default(wanted.deep_view());
            }
            return None;
        },
    };
    let mut i: usize = wanted.len();
    assert(wanted.deep_view().take(i as int) =~= wanted.deep_view());
    while i > 0
        invariant
            i <= wanted.len(),
            toplevel.deep_view() == Some(target@),
            default_generation_spec(wanted.deep_view(), toplevel.deep_view())
                == default_generation_spec(
                wanted.deep_view().take(i as int),
                toplevel.deep_view(),
            ),
        decreases i,
    {
        let ghost upto = wanted.deep_view().take(i as int);
        assert(upto.last() == wanted@[i as int - 1]@);
        assert(upto.drop_last() =~= wanted.deep_view().take(i as int - 1));
        if same_text(wanted[i - 1].path.as_str(), target.as_str()) {
            return Some(i - 1);
        }
        i -= 1;
    }
    None
}

proof fn lemma_no_toplevel_no_default(wanted: Seq<GenerationView>)
    ensures
        default_generation_spec(wanted, None) is None,
    decreases wanted.len(),
{
    if wanted.len() > 0 {
        lemma_no_toplevel_no_default(wanted.drop_last());
    }
}

/// The default generation, where there is one, is a kept generation rooted
/// at the toplevel, and no newer kept generation is.
pub proof fn lemma_default_generation(wanted: Seq<GenerationView>, toplevel: Option<Seq<char>>)
    ensures
        match default_generation_spec(wanted, toplevel) {
            Some(i) => {
                &&& 0 <= i < wanted.len()
                &&& toplevel == Some(wanted[i].path)
                &&& forall|j: int| i < j < wanted.len() ==> toplevel != Some(wanted[j].path)
            },
            None => forall|j: int| 0 <= j < wanted.len() ==> toplevel != Some(wanted[j].path),
        },
    decreases wanted.len(),
{
    if wanted.len() > 0 {
        let rest = wanted.drop_last();
        lemma_default_generation(rest, toplevel);
        if toplevel != Some(wanted.last().path) {
            match default_generation_spec(rest, toplevel) {
                Some(i) => {
                    assert(wanted[i] == rest[i]);
                    assert forall|j: int| i < j < wanted.len() implies toplevel != Some(
                        wanted[j].path,
                    ) by {
                        if j < rest.len() {
                            assert(wanted[j] == rest[j]);
                        }
                    }
                },
                None => {
                    assert forall|j: int| 0 <= j < wanted.len() implies toplevel != Some(
                        wanted[j].path,
                    ) by {
                        if j < rest.len() {
                            assert(wanted[j] == rest[j]);
                        }
                    }
                },
            }
        }
    }
}

/// The boot manager's own binaries on the partition, which are signed along
/// with the images.
pub open spec fn boot_manager_binaries(esp: Seq<char>) -> Seq<Seq<char>> {
    seq![
        join_path_spec(esp, "EFI/systemd/systemd-bootx64.efi"@),
        join_path_spec(esp, "EFI/BOOT/BOOTX64.EFI"@),
    ]
}

/// The step that installs or updates.
pub open spec fn first_step(a: PlanArgsView) -> PlanStateView {
    if a.args.install {
        PlanStateView::Install {
            loader: if a.loader_exists {
                Some(join_path_spec(a.esp, "loader/loader.conf"@))
            } else {
                None
            },
            bootctl: a.bootctl,
            esp: a.esp,
            can_touch_efi_vars: a.args.can_touch_efi_vars,
        }
    } else {
        PlanStateView::Update {
            bootctl: a.bootctl,
            esp: a.esp,
            bootloader_version: a.bootloader_version,
            systemd_version: a.systemd_version,
        }
    }
}

/// The signing step, where signing is in use.
pub open spec fn sign_steps(a: PlanArgsView) -> Seq<PlanStateView> {
    match a.args.signing_info {
        Some(signing_info) => seq![
            PlanStateView::SignFiles {
                signing_info,
                to_sign: boot_manager_binaries(a.esp) + a.identified_files.to_sign,
            },
        ],
        None => Seq::<PlanStateView>::empty(),
    }
}

/// The step that writes the configuration, where a kept generation is the
/// default. Where none is, nothing is written and the partition keeps the
/// default it had.
pub open spec fn loader_steps(a: PlanArgsView) -> Seq<PlanStateView> {
    match default_generation_spec(a.wanted_generations, a.toplevel) {
        Some(i) => seq![
            PlanStateView::WriteLoader {
                path: join_path_spec(a.args.generated_entries, "loader/loader.conf"@),
                timeout: a.args.timeout,
                index: a.wanted_generations[i].idx,
                editor: a.args.editor,
                console_mode: a.args.console_mode,
            },
        ],
        None => Seq::<PlanStateView>::empty(),
    }
}

/// The plan for `a`.
pub open spec fn plan_spec(a: PlanArgsView) -> Seq<PlanStateView> {
    seq![PlanStateView::Start, first_step(a)] + sign_steps(a) + seq![
        PlanStateView::PruneFiles {
            wanted_generations: a.wanted_generations,
            paths: seq![a.args.generated_entries, a.esp],
        },
        PlanStateView::ReplaceFiles {
            signing_info: a.args.signing_info,
            to_replace: a.identified_files.to_replace,
        },
    ] + loader_steps(a) + seq![
        PlanStateView::CopyToEsp { generated_entries: a.args.generated_entries, esp: a.esp },
        PlanStateView::Syncfs { esp: a.esp },
        PlanStateView::End,
    ]
}

/// Lays out the steps of an installation on one partition. The plan is
/// data: making it touches nothing, so it can be printed instead of carried
/// out.
pub fn create_plan(plan_args: PlanArgs) -> (r: Result<SystemdBootPlan, BootError>)
    ensures
        r is Ok,
        r->Ok_0.deep_view() == plan_spec(plan_args@),
{
    let args = plan_args.args;
    let bootctl = plan_args.bootctl;
    let esp = plan_args.esp;
    let wanted_generations = plan_args.wanted_generations;
    let ghost a = plan_args@;

    let mut plan: Vec<SystemdBootPlanState> = Vec::new();
    plan.push(SystemdBootPlanState::Start);

    if args.install {
        let loader = join_path(esp, "loader/loader.conf");
        plan.push(
            SystemdBootPlanState::Install {
                loader: if plan_args.loader_exists {
                    Some(loader)
                } else {
                    None
                },
                bootctl: owned(bootctl),
                esp: owned(esp),
                can_touch_efi_vars: args.can_touch_efi_vars,
            },
        );
    } else {
        plan.push(
            SystemdBootPlanState::Update {
                bootctl: owned(bootctl),
                esp: owned(esp),
                bootloader_version: plan_args.bootloader_version,
                systemd_version: plan_args.systemd_version,
            },
        );
    }
    assert(plan.deep_view() =~= seq![PlanStateView::Start, first_step(a)]);

    let IdentifiedFiles { to_sign: found_to_sign, to_replace } = plan_args.identified_files;

    if let Some(signing_info) = args.signing_info.get() {
        let mut to_sign: Vec<String> = Vec::new();
        to_sign.push(join_path(esp, "EFI/systemd/systemd-bootx64.efi"));
        to_sign.push(join_path(esp, "EFI/BOOT/BOOTX64.EFI"));
        let mut found = found_to_sign;
        let ghost head = to_sign.deep_view();
        let ghost tail = found.deep_view();
        to_sign.append(&mut found);
        assert(to_sign.deep_view() =~= head + tail);
        assert(head =~= boot_manager_binaries(a.esp));
        plan.push(SystemdBootPlanState::SignFiles { signing_info: signing_info.clone(), to_sign });
    }
    assert(plan.deep_view() =~= seq![PlanStateView::Start, first_step(a)] + sign_steps(a));

    let mut paths: Vec<String> = Vec::new();
    paths.push(args.generated_entries.clone());
    paths.push(owned(esp));
    assert(paths.deep_view() =~= seq![a.args.generated_entries, a.esp]);
    plan.push(
        SystemdBootPlanState::PruneFiles {
            wanted_generations: clone_generations(wanted_generations),
            paths,
        },
    );

    plan.push(
        SystemdBootPlanState::ReplaceFiles {
            signing_info: match args.signing_info.get() {
                Some(signing_info) => Some(signing_info.clone()),
                None => None,
            },
            to_replace,
        },
    );
    let ghost upto_replace = plan.deep_view();
    assert(upto_replace =~= seq![PlanStateView::Start, first_step(a)] + sign_steps(a) + seq![
        PlanStateView::PruneFiles {
            wanted_generations: a.wanted_generations,
            paths: seq![a.args.generated_entries, a.esp],
        },
        PlanStateView::ReplaceFiles {
            signing_info: a.args.signing_info,
            to_replace: a.identified_files.to_replace,
        },
    ]);

    match find_default_generation(wanted_generations, &plan_args.toplevel) {
        Some(i) => {
            plan.push(
                SystemdBootPlanState::WriteLoader {
                    path: join_path(args.generated_entries.as_str(), "loader/loader.conf"),
                    timeout: args.timeout,
                    index: wanted_generations[i].idx,
                    editor: args.editor,
                    console_mode: args.console_mode.clone(),
                },
            );
        },
        None => {},
    }
    let ghost upto_loader = plan.deep_view();
    assert(upto_loader =~= upto_replace + loader_steps(a));

    plan.push(
        SystemdBootPlanState::CopyToEsp {
            generated_entries: args.generated_entries.clone(),
            esp: owned(esp),
        },
    );
    plan.push(SystemdBootPlanState::Syncfs { esp: owned(esp) });
    plan.push(SystemdBootPlanState::End);
    assert(plan.deep_view() =~= upto_loader + seq![
        PlanStateView::CopyToEsp { generated_entries: a.args.generated_entries, esp: a.esp },
        PlanStateView::Syncfs { esp: a.esp },
        PlanStateView::End,
    ]);

    Ok(plan)
}

/// Where each step of a plan stands: `Start`, then the step that installs or
/// updates, then the signing step where there is one, then pruning,
/// replacing, the configuration where there is one, the copy, the sync and
/// `End`.
pub proof fn lemma_plan_shape(a: PlanArgsView)
    ensures
        ({
            let p = plan_spec(a);
            let s = sign_steps(a).len() as int;
            let l = loader_steps(a).len() as int;
            &&& 0 <= s <= 1
            &&& 0 <= l <= 1
            &&& s == 1 <==> a.args.signing_info is Some
            &&& l == 1 <==> default_generation_spec(a.wanted_generations, a.toplevel) is Some
            &&& p.len() == 7 + s + l
            &&& p[0] is Start
            &&& p[1] == first_step(a)
            &&& s == 1 ==> p[2] is SignFiles
            &&& p[2 + s] is PruneFiles
            &&& p[3 + s] is ReplaceFiles
            &&& l == 1 ==> p[4 + s] is WriteLoader
            &&& p[4 + s + l] is CopyToEsp
            &&& p[5 + s + l] is Syncfs
            &&& p[6 + s + l] is End
        }),
{
}

/// A plan is a function of what it is made from: the same inputs give the
/// same steps, one for one. It reads no more than the fields named here, so
/// two runs that differ only in what is not named plan alike.
pub proof fn lemma_plan_determinism(a: PlanArgsView, b: PlanArgsView)
    requires
        a.args.install == b.args.install,
        a.args.can_touch_efi_vars == b.args.can_touch_efi_vars,
        a.args.signing_info == b.args.signing_info,
        a.args.generated_entries == b.args.generated_entries,
        a.args.timeout == b.args.timeout,
        a.args.editor == b.args.editor,
        a.args.console_mode == b.args.console_mode,
        a.bootctl == b.bootctl,
        a.esp == b.esp,
        a.wanted_generations == b.wanted_generations,
        a.toplevel == b.toplevel,
        a.identified_files == b.identified_files,
        a.args.install ==> a.loader_exists == b.loader_exists,
        !a.args.install ==> a.bootloader_version == b.bootloader_version && a.systemd_version
            == b.systemd_version,
    ensures
        plan_spec(a) == plan_spec(b),
{
}

/// The order of the steps: in every plan files are pruned before the
/// staging tree is copied, the configuration, where it is written, is
/// written before the copy, the sync is the last step but one, and `End` is
/// the last.
pub proof fn lemma_step_order(a: PlanArgsView)
    ensures
        ({
            let p = plan_spec(a);
            &&& p.len() >= 7
            &&& p[0] is Start
            &&& p[p.len() - 2] is Syncfs
            &&& p[p.len() - 1] is End
            &&& exists|i: int| 0 <= i < p.len() && #[trigger] p[i] is PruneFiles
            &&& exists|i: int| 0 <= i < p.len() && #[trigger] p[i] is CopyToEsp
            &&& forall|i: int, j: int|
                0 <= i < p.len() && 0 <= j < p.len() && #[trigger] p[i] is PruneFiles
                    && #[trigger] p[j] is CopyToEsp ==> i < j
            &&& forall|i: int, j: int|
                0 <= i < p.len() && 0 <= j < p.len() && #[trigger] p[i] is WriteLoader
                    && #[trigger] p[j] is CopyToEsp ==> i < j
            &&& forall|i: int|
                0 <= i < p.len() && #[trigger] p[i] is Syncfs ==> i == p.len() - 2
            &&& forall|i: int| 0 <= i < p.len() && #[trigger] p[i] is End ==> i == p.len() - 1
        }),
{
    lemma_plan_shape(a);
    let p = plan_spec(a);
    let s = sign_steps(a).len() as int;
    let l = loader_steps(a).len() as int;
    assert(p[2 + s] is PruneFiles);
    assert(p[4 + s + l] is CopyToEsp);
}

/// Whether a step installs or updates the boot manager.
pub open spec fn installs_or_updates(step: PlanStateView) -> bool {
    step is Install || step is Update
}

/// Every plan holds exactly one step that installs or updates the boot
/// manager: an `Install` where installation was asked for, else an
/// `Update`, and never both.
pub proof fn lemma_install_xor_update(a: PlanArgsView)
    ensures
        ({
            let p = plan_spec(a);
            &&& p.len() > 1
            &&& installs_or_updates(p[1])
            &&& p[1] is Install <==> a.args.install
            &&& forall|i: int|
                0 <= i < p.len() && installs_or_updates(#[trigger] p[i]) ==> i == 1
        }),
{
    lemma_plan_shape(a);
}

/// What a plan prunes and which entry it makes the default: pruning is
/// handed exactly the kept generations, and the configuration names the
/// index of the newest kept generation that is rooted at the toplevel.
pub proof fn lemma_plan_contents(a: PlanArgsView)
    ensures
        forall|i: int|
            0 <= i < plan_spec(a).len() ==> match #[trigger] plan_spec(a)[i] {
                PlanStateView::PruneFiles { wanted_generations, paths } => wanted_generations
                    == a.wanted_generations && paths == seq![a.args.generated_entries, a.esp],
                PlanStateView::WriteLoader { index, .. } => {
                    let d = default_generation_spec(a.wanted_generations, a.toplevel);
                    d is Some && index == a.wanted_generations[d->0].idx
                },
                _ => true,
            },
{
    lemma_plan_shape(a);
}

} // verus!
