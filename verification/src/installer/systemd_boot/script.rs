//! From a plan to a script: the single operations on files and processes
//! that the steps of a plan stand for, in the order in which they run.

use vstd::prelude::*;
use vstd::string::*;
use super::plan::{PlanStateView, SystemdBootPlan, SystemdBootPlanState};
use super::version::systemd::number_of;
use super::{create_loader_conf, get_required_filenames, loader_conf_spec, required_filenames_spec};
use crate::installer::files::{has_efi_extension, is_efi_image, FileToReplace, FileToReplaceView};
use crate::installer::secure_boot::{SigningInfo, SigningInfoView};
use crate::installer::util::clone_generations;
use crate::text::{clone_strings, join_path, join_path_spec, owned};

verus! {

/// What the failure of a program means.
#[derive(Debug, Clone, Copy, PartialEq, Eq, Structural)]
pub enum Failure {
    /// The boot-manager tool failed: the run is over.
    Command,
    /// A file could not be signed: the run is over.
    Sign,
    /// A staged file does not verify: the run is over.
    Verify,
    /// A file on the partition does not verify: worth a warning, no more,
    /// since the file may be older than the keys.
    VerifyWarn,
    /// A signature could not be removed: the run is over.
    Strip,
}

/// One of the two checksums that a comparison needs.
#[derive(Debug, Clone, Copy, PartialEq, Eq, Structural)]
pub enum Side {
    Generated,
    Esp,
}

/// One operation of a script.
#[derive(Debug, PartialEq)]
#[allow(inconsistent_fields)]
pub enum Op {
    /// Tell the user something; nothing is done.
    Note { message: String },
    /// Delete a file.
    RemoveFile { path: String },
    /// Run a program to its end. `subject` is the file it is run for.
    Run { program: String, args: Vec<String>, quiet: bool, failure: Failure, subject: String },
    /// Copy one file.
    CopyFile { from: String, to: String },
    /// Write a file.
    WriteFile { path: String, contents: String },
    /// Merge a tree into another without ever showing a half-written file.
    CopyTree { from: String, to: String },
    /// Delete a tree.
    RemoveTree { path: String },
    /// Ask for a file system to be written out; a failure is no error.
    Syncfs { path: String },
    /// List the entries below `root`, to prune them.
    ListEntries { root: String, required: Vec<String> },
    /// List the kernels, initrds and images below `root`, to prune them and
    /// the `entries` listed before.
    ListArtifacts { root: String, required: Vec<String>, entries: Vec<String> },
    /// Read a file and remember its checksum.
    ReadSum { path: String, side: Side },
    /// Drop the staged file where both checksums agree.
    Decide { generated: String, esp: String },
}

/// The mathematical value of an [`Op`].
#[allow(inconsistent_fields)]
pub enum OpView {
    Note { message: Seq<char> },
    RemoveFile { path: Seq<char> },
    Run {
        program: Seq<char>,
        args: Seq<Seq<char>>,
        quiet: bool,
        failure: Failure,
        subject: Seq<char>,
    },
    CopyFile { from: Seq<char>, to: Seq<char> },
    WriteFile { path: Seq<char>, contents: Seq<char> },
    CopyTree { from: Seq<char>, to: Seq<char> },
    RemoveTree { path: Seq<char> },
    Syncfs { path: Seq<char> },
    ListEntries { root: Seq<char>, required: Seq<Seq<char>> },
    ListArtifacts { root: Seq<char>, required: Seq<Seq<char>>, entries: Seq<Seq<char>> },
    ReadSum { path: Seq<char>, side: Side },
    Decide { generated: Seq<char>, esp: Seq<char> },
}

impl View for Op {
    type V = OpView;

    open spec fn view(&self) -> OpView {
        match self {
            Op::Note { message } => OpView::Note { message: message@ },
            Op::RemoveFile { path } => OpView::RemoveFile { path: path@ },
            Op::Run { program, args, quiet, failure, subject } => OpView::Run {
                program: program@,
                args: args.deep_view(),
                quiet: *quiet,
                failure: *failure,
                subject: subject@,
            },
            Op::CopyFile { from, to } => OpView::CopyFile { from: from@, to: to@ },
            Op::WriteFile { path, contents } => OpView::WriteFile {
                path: path@,
                contents: contents@,
            },
            Op::CopyTree { from, to } => OpView::CopyTree { from: from@, to: to@ },
            Op::RemoveTree { path } => OpView::RemoveTree { path: path@ },
            Op::Syncfs { path } => OpView::Syncfs { path: path@ },
            Op::ListEntries { root, required } => OpView::ListEntries {
                root: root@,
                required: required.deep_view(),
            },
            Op::ListArtifacts { root, required, entries } => OpView::ListArtifacts {
                root: root@,
                required: required.deep_view(),
                entries: entries.deep_view(),
            },
            Op::ReadSum { path, side } => OpView::ReadSum { path: path@, side: *side },
            Op::Decide { generated, esp } => OpView::Decide { generated: generated@, esp: esp@ },
        }
    }
}

impl DeepView for Op {
    type V = OpView;

    open spec fn deep_view(&self) -> OpView {
        self@
    }
}

/// Where the machine keeps its scratch files and finds the tool that
/// removes signatures.
#[derive(Debug)]
pub struct ExecEnv {
    /// A directory for temporary copies.
    pub tmp_dir: String,
    /// The tool that removes a signature from an image.
    pub sbattach: String,
}

/// The mathematical value of an [`ExecEnv`].
pub struct ExecEnvView {
    pub tmp_dir: Seq<char>,
    pub sbattach: Seq<char>,
}

impl View for ExecEnv {
    type V = ExecEnvView;

    open spec fn view(&self) -> ExecEnvView {
        ExecEnvView { tmp_dir: self.tmp_dir@, sbattach: self.sbattach@ }
    }
}

/// The arguments that install the boot manager on `esp`.
pub open spec fn install_args_spec(esp: Seq<char>, can_touch_efi_vars: bool) -> Seq<Seq<char>> {
    if can_touch_efi_vars {
        seq!["install"@, "--path"@, esp]
    } else {
        seq!["install"@, "--path"@, esp, "--no-variables"@]
    }
}

/// The arguments that install the boot manager on `esp`; the firmware's
/// variables are left alone unless they may be touched.
pub fn install_args(esp: &str, can_touch_efi_vars: bool) -> (args: Vec<String>)
    ensures
        args.deep_view() == install_args_spec(esp@, can_touch_efi_vars),
{
    let mut args: Vec<String> = Vec::new();
    args.push(owned("install"));
    args.push(owned("--path"));
    args.push(owned(esp));
    if !can_touch_efi_vars {
        args.push(owned("--no-variables"));
    }
    assert(args.deep_view() =~= install_args_spec(esp@, can_touch_efi_vars));
    args
}

/// The arguments that update the boot manager on `esp`.
pub open spec fn update_args_spec(esp: Seq<char>) -> Seq<Seq<char>> {
    seq!["update"@, "--path"@, esp]
}

/// The arguments that update the boot manager on `esp`.
pub fn update_args(esp: &str) -> (args: Vec<String>)
    ensures
        args.deep_view() == update_args_spec(esp@),
{
    let mut args: Vec<String> = Vec::new();
    args.push(owned("update"));
    args.push(owned("--path"));
    args.push(owned(esp));
    assert(args.deep_view() =~= update_args_spec(esp@));
    args
}

/// The operations that sign `files`, one run of the signing tool each.
pub open spec fn sign_script(info: SigningInfoView, files: Seq<Seq<char>>) -> Seq<OpView> {
    Seq::new(
        files.len(),
        |i: int|
            OpView::Run {
                program: info.sbsign,
                args: info.sign_args(files[i]),
                quiet: true,
                failure: Failure::Sign,
                subject: files[i],
            },
    )
}

/// The operations that prune below each of `paths`.
pub open spec fn prune_script(required: Seq<Seq<char>>, paths: Seq<Seq<char>>) -> Seq<OpView> {
    Seq::new(paths.len(), |i: int| OpView::ListEntries { root: paths[i], required })
}

/// The operations that settle one pair. Where signing is in use and the
/// staged file is an image, both sides are verified, and the checksums are
/// taken of copies from which the signature has been removed; else they are
/// taken of the files themselves. The scratch copies are deleted before the
/// decision is taken.
pub open spec fn pair_script(
    env: ExecEnvView,
    signing_info: Option<SigningInfoView>,
    pair: FileToReplaceView,
) -> Seq<OpView> {
    if signing_info is Some && is_efi_image(pair.generated_loc) {
        let info = signing_info->0;
        let generated_tmp = join_path_spec(env.tmp_dir, "generated"@);
        let esp_tmp = join_path_spec(env.tmp_dir, "esp"@);
        seq![
            OpView::Run {
                program: info.sbverify,
                args: info.verify_args(pair.generated_loc),
                quiet: true,
                failure: Failure::Verify,
                subject: pair.generated_loc,
            },
            OpView::Run {
                program: info.sbverify,
                args: info.verify_args(pair.esp_loc),
                quiet: true,
                failure: Failure::VerifyWarn,
                subject: pair.esp_loc,
            },
            OpView::CopyFile { from: pair.generated_loc, to: generated_tmp },
            OpView::CopyFile { from: pair.esp_loc, to: esp_tmp },
            OpView::Run {
                program: env.sbattach,
                args: seq!["--remove"@, generated_tmp],
                quiet: true,
                failure: Failure::Strip,
                subject: generated_tmp,
            },
            OpView::Run {
                program: env.sbattach,
                args: seq!["--remove"@, esp_tmp],
                quiet: true,
                failure: Failure::Strip,
                subject: esp_tmp,
            },
            OpView::ReadSum { path: generated_tmp, side: Side::Generated },
            OpView::ReadSum { path: esp_tmp, side: Side::Esp },
            OpView::RemoveFile { path: generated_tmp },
            OpView::RemoveFile { path: esp_tmp },
            OpView::Decide { generated: pair.generated_loc, esp: pair.esp_loc },
        ]
    } else {
        seq![
            OpView::ReadSum { path: pair.generated_loc, side: Side::Generated },
            OpView::ReadSum { path: pair.esp_loc, side: Side::Esp },
            OpView::Decide { generated: pair.generated_loc, esp: pair.esp_loc },
        ]
    }
}

/// The operations that settle every pair, pair after pair.
pub open spec fn replace_script(
    env: ExecEnvView,
    signing_info: Option<SigningInfoView>,
    pairs: Seq<FileToReplaceView>,
) -> Seq<OpView>
    decreases pairs.len(),
{
    if pairs.len() == 0 {
        Seq::<OpView>::empty()
    } else {
        replace_script(env, signing_info, pairs.drop_last()) + pair_script(
            env,
            signing_info,
            pairs.last(),
        )
    }
}

/// What is said where there is nothing to update.
pub open spec fn no_version_note() -> Seq<char> {
    "no installed boot manager version was found; not updating"@
}

/// The operations of one step.
pub open spec fn step_script(env: ExecEnvView, step: PlanStateView) -> Seq<OpView> {
    match step {
        PlanStateView::Start => Seq::<OpView>::empty(),
        PlanStateView::Install { loader, bootctl, esp, can_touch_efi_vars } => (match loader {
            Some(path) => seq![OpView::RemoveFile { path }],
            None => Seq::<OpView>::empty(),
        }) + seq![
            OpView::Run {
                program: bootctl,
                args: install_args_spec(esp, can_touch_efi_vars),
                quiet: false,
                failure: Failure::Command,
                subject: esp,
            },
        ],
        PlanStateView::Update { bootctl, esp, bootloader_version, systemd_version } => {
            if bootloader_version is None {
                seq![OpView::Note { message: no_version_note() }]
            } else if number_of(systemd_version) is Some && bootloader_version->0 < number_of(
                systemd_version,
            )->0 {
                seq![
                    OpView::Run {
                        program: bootctl,
                        args: update_args_spec(esp),
                        quiet: false,
                        failure: Failure::Command,
                        subject: esp,
                    },
                ]
            } else {
                Seq::<OpView>::empty()
            }
        },
        PlanStateView::SignFiles { signing_info, to_sign } => sign_script(signing_info, to_sign),
        PlanStateView::PruneFiles { wanted_generations, paths } => prune_script(
            required_filenames_spec(wanted_generations),
            paths,
        ),
        PlanStateView::ReplaceFiles { signing_info, to_replace } => replace_script(
            env,
            signing_info,
            to_replace,
        ),
        PlanStateView::WriteLoader { path, timeout, index, editor, console_mode } => seq![
            OpView::WriteFile {
                path,
                contents: loader_conf_spec(timeout, index, editor, console_mode),
            },
        ],
        PlanStateView::CopyToEsp { generated_entries, esp } => seq![
            OpView::CopyTree { from: generated_entries, to: esp },
            OpView::RemoveTree { path: generated_entries },
        ],
        PlanStateView::Syncfs { esp } => seq![OpView::Syncfs { path: esp }],
        PlanStateView::End => Seq::<OpView>::empty(),
    }
}

/// The operations of a plan: those of its steps, step after step.
pub open spec fn plan_script(env: ExecEnvView, plan: Seq<PlanStateView>) -> Seq<OpView>
    decreases plan.len(),
{
    if plan.len() == 0 {
        Seq::<OpView>::empty()
    } else {
        plan_script(env, plan.drop_last()) + step_script(env, plan.last())
    }
}

fn push_pair_script(
    env: &ExecEnv,
    signing_info: &Option<SigningInfo>,
    pair: &FileToReplace,
    script: &mut Vec<Op>,
)
    ensures
        final(script).deep_view() == old(script).deep_view() + pair_script(
            env@,
            signing_info.deep_view(),
            pair@,
        ),
{
    let ghost before = script.deep_view();
    let image = has_efi_extension(pair.generated_loc.as_str());
    match signing_info {
        Some(info) if image => {
            let generated_tmp = join_path(env.tmp_dir.as_str(), "generated");
            let esp_tmp = join_path(env.tmp_dir.as_str(), "esp");
            script.push(
                Op::Run {
                    program: info.sbverify.clone(),
                    args: info.verify_args(pair.generated_loc.as_str()),
                    quiet: true,
                    failure: Failure::Verify,
                    subject: pair.generated_loc.clone(),
                },
            );
            script.push(
                Op::Run {
                    program: info.sbverify.clone(),
                    args: info.verify_args(pair.esp_loc.as_str()),
                    quiet: true,
                    failure: Failure::VerifyWarn,
                    subject: pair.esp_loc.clone(),
                },
            );
            script.push(
                Op::CopyFile { from: pair.generated_loc.clone(), to: generated_tmp.clone() },
            );
            script.push(Op::CopyFile { from: pair.esp_loc.clone(), to: esp_tmp.clone() });
            let mut strip_generated: Vec<String> = Vec::new();
            strip_generated.push(owned("--remove"));
            strip_generated.push(generated_tmp.clone());
            assert(strip_generated.deep_view() =~= seq!["--remove"@, generated_tmp@]);
            script.push(
                Op::Run {
                    program: env.sbattach.clone(),
                    args: strip_generated,
                    quiet: true,
                    failure: Failure::Strip,
                    subject: generated_tmp.clone(),
                },
            );
            let mut strip_esp: Vec<String> = Vec::new();
            strip_esp.push(owned("--remove"));
            strip_esp.push(esp_tmp.clone());
            assert(strip_esp.deep_view() =~= seq!["--remove"@, esp_tmp@]);
            script.push(
                Op::Run {
                    program: env.sbattach.clone(),
                    args: strip_esp,
                    quiet: true,
                    failure: Failure::Strip,
                    subject: esp_tmp.clone(),
                },
            );
            script.push(Op::ReadSum { path: generated_tmp.clone(), side: Side::Generated });
            script.push(Op::ReadSum { path: esp_tmp.clone(), side: Side::Esp });
            script.push(Op::RemoveFile { path: generated_tmp });
            script.push(Op::RemoveFile { path: esp_tmp });
            script.push(
                Op::Decide { generated: pair.generated_loc.clone(), esp: pair.esp_loc.clone() },
            );
            assert(script.deep_view() =~= before + pair_script(
                env@,
                signing_info.deep_view(),
                pair@,
            ));
        },
        _ => {
            script.push(Op::ReadSum { path: pair.generated_loc.clone(), side: Side::Generated });
            script.push(Op::ReadSum { path: pair.esp_loc.clone(), side: Side::Esp });
            script.push(
                Op::Decide { generated: pair.generated_loc.clone(), esp: pair.esp_loc.clone() },
            );
            assert(script.deep_view() =~= before + pair_script(
                env@,
                signing_info.deep_view(),
                pair@,
            ));
        },
    }
}

fn push_step_script(env: &ExecEnv, step: &SystemdBootPlanState, script: &mut Vec<Op>)
    ensures
        final(script).deep_view() == old(script).deep_view() + step_script(env@, step@),
{
    let ghost before = script.deep_view();
    match step {
        SystemdBootPlanState::Start => {
            assert(script.deep_view() =~= before + step_script(env@, step@));
        },
        SystemdBootPlanState::Install { loader, bootctl, esp, can_touch_efi_vars } => {
            if let Some(path) = loader {
                script.push(Op::RemoveFile { path: path.clone() });
            }
            script.push(
                Op::Run {
                    program: bootctl.clone(),
                    args: install_args(esp.as_str(), *can_touch_efi_vars),
                    quiet: false,
                    failure: Failure::Command,
                    subject: esp.clone(),
                },
            );
            assert(script.deep_view() =~= before + step_script(env@, step@));
        },
        SystemdBootPlanState::Update { bootctl, esp, bootloader_version, systemd_version } => {
            match bootloader_version {
                None => {
                    script.push(
                        Op::Note {
                            message: owned(
                                "no installed boot manager version was found; not updating",
                            ),
                        },
                    );
                },
                Some(installed) => {
                    if installed.older_than(systemd_version) {
                        script.push(
                            Op::Run {
                                program: bootctl.clone(),
                                args: update_args(esp.as_str()),
                                quiet: false,
                                failure: Failure::Command,
                                subject: esp.clone(),
                            },
                        );
                    }
                },
            }
            assert(script.deep_view() =~= before + step_script(env@, step@));
        },
        SystemdBootPlanState::SignFiles { signing_info, to_sign } => {
            let mut i: usize = 0;
            while i < to_sign.len()
                invariant
                    i <= to_sign.len(),
                    script.deep_view() == before + sign_script(
                        signing_info@,
                        to_sign.deep_view(),
                    ).take(i as int),
                decreases to_sign.len() - i,
            {
                let ghost sofar = script.deep_view();
                script.push(
                    Op::Run {
                        program: signing_info.sbsign.clone(),
                        args: signing_info.sign_args(to_sign[i].as_str()),
                        quiet: true,
                        failure: Failure::Sign,
                        subject: to_sign[i].clone(),
                    },
                );
                i += 1;
                proof {
                    let all = sign_script(signing_info@, to_sign.deep_view());
                    assert(script.deep_view() =~= sofar.push(all[i as int - 1]));
                    assert(all.take(i as int) =~= all.take(i as int - 1).push(all[i as int - 1]));
                }
                assert(script.deep_view() =~= before + sign_script(
                    signing_info@,
                    to_sign.deep_view(),
                ).take(i as int));
            }
            assert(script.deep_view() =~= before + step_script(env@, step@));
        },
        SystemdBootPlanState::PruneFiles { wanted_generations, paths } => {
            let required = get_required_filenames(clone_generations(wanted_generations));
            let mut i: usize = 0;
            while i < paths.len()
                invariant
                    i <= paths.len(),
                    required.deep_view() == required_filenames_spec(
                        wanted_generations.deep_view(),
                    ),
                    script.deep_view() == before + prune_script(
                        required.deep_view(),
                        paths.deep_view(),
                    ).take(i as int),
                decreases paths.len() - i,
            {
                let ghost sofar = script.deep_view();
                script.push(
                    Op::ListEntries { root: paths[i].clone(), required: clone_strings(&required) },
                );
                i += 1;
                proof {
                    let all = prune_script(required.deep_view(), paths.deep_view());
                    assert(script.deep_view() =~= sofar.push(all[i as int - 1]));
                    assert(all.take(i as int) =~= all.take(i as int - 1).push(all[i as int - 1]));
                }
                assert(script.deep_view() =~= before + prune_script(
                    required.deep_view(),
                    paths.deep_view(),
                ).take(i as int));
            }
            assert(script.deep_view() =~= before + step_script(env@, step@));
        },
        SystemdBootPlanState::ReplaceFiles { signing_info, to_replace } => {
            let mut i: usize = 0;
            assert(to_replace.deep_view().take(0) =~= Seq::<FileToReplaceView>::empty());
            assert(script.deep_view() =~= before + replace_script(
                env@,
                signing_info.deep_view(),
                to_replace.deep_view().take(0),
            ));
            while i < to_replace.len()
                invariant
                    i <= to_replace.len(),
                    script.deep_view() == before + replace_script(
                        env@,
                        signing_info.deep_view(),
                        to_replace.deep_view().take(i as int),
                    ),
                decreases to_replace.len() - i,
            {
                let ghost upto = to_replace.deep_view().take(i as int + 1);
                assert(upto.drop_last() =~= to_replace.deep_view().take(i as int));
                assert(upto.last() == to_replace@[i as int]@);
                push_pair_script(env, signing_info, &to_replace[i], script);
                i += 1;
                assert(script.deep_view() =~= before + replace_script(
                    env@,
                    signing_info.deep_view(),
                    upto,
                ));
            }
            assert(to_replace.deep_view().take(to_replace.len() as int)
                =~= to_replace.deep_view());
        },
        SystemdBootPlanState::WriteLoader { path, timeout, index, editor, console_mode } => {
            let contents = match create_loader_conf(
                *timeout,
                *index,
                *editor,
                console_mode.as_str(),
            ) {
                Ok(contents) => contents,
                Err(_) => String::new(),
            };
            script.push(Op::WriteFile { path: path.clone(), contents });
            assert(script.deep_view() =~= before + step_script(env@, step@));
        },
        SystemdBootPlanState::CopyToEsp { generated_entries, esp } => {
            script.push(Op::CopyTree { from: generated_entries.clone(), to: esp.clone() });
            script.push(Op::RemoveTree { path: generated_entries.clone() });
            assert(script.deep_view() =~= before + step_script(env@, step@));
        },
        SystemdBootPlanState::Syncfs { esp } => {
            script.push(Op::Syncfs { path: esp.clone() });
            assert(script.deep_view() =~= before + step_script(env@, step@));
        },
        SystemdBootPlanState::End => {
            assert(script.deep_view() =~= before + step_script(env@, step@));
        },
    }
}

/// Turns a plan into its script. Nothing is reordered: the operations of a
/// step come after those of every step before it.
pub fn compile(env: &ExecEnv, plan: &SystemdBootPlan) -> (script: Vec<Op>)
    ensures
        script.deep_view() == plan_script(env@, plan.deep_view()),
{
    let mut script: Vec<Op> = Vec::new();
    let mut i: usize = 0;
    assert(plan.deep_view().take(0) =~= Seq::<PlanStateView>::empty());
    assert(script.deep_view() =~= plan_script(env@, plan.deep_view().take(0)));
    while i < plan.len()
        invariant
            i <= plan.len(),
            script.deep_view() == plan_script(env@, plan.deep_view().take(i as int)),
        decreases plan.len() - i,
    {
        let ghost upto = plan.deep_view().take(i as int + 1);
        assert(upto.drop_last() =~= plan.deep_view().take(i as int));
        assert(upto.last() == plan@[i as int]@);
        push_step_script(env, &plan[i], &mut script);
        i += 1;
    }
    assert(plan.deep_view().take(plan.len() as int) =~= plan.deep_view());
    script
}

} // verus!
