use boot_manager::error::BootError;
use boot_manager::installer::files::FileToReplace;
use boot_manager::installer::secure_boot::SigningInfo;
use boot_manager::installer::systemd_boot::exec::{Action, Event, Executor};
use boot_manager::installer::systemd_boot::plan::SystemdBootPlanState;
use boot_manager::installer::systemd_boot::script::{
    compile, install_args, update_args, ExecEnv, Failure, Op, Side,
};
use boot_manager::installer::systemd_boot::version::systemd::SystemdVersion;
use boot_manager::installer::systemd_boot::version::systemd_boot::SystemdBootVersion;
use boot_manager::installer::util::Generation;

fn s(t: &str) -> String {
    String::from(t)
}

fn names(list: &[&str]) -> Vec<String> {
    list.iter().map(|t| t.to_string()).collect()
}

fn env() -> ExecEnv {
    ExecEnv { tmp_dir: s("/tmp"), sbattach: s("/bin/sbattach") }
}

fn info() -> SigningInfo {
    SigningInfo {
        signing_key: s("db.key"),
        signing_cert: s("db.crt"),
        sbsign: s("sbsign"),
        sbverify: s("sbverify"),
    }
}

fn generation_two() -> Generation {
    Generation {
        idx: 2,
        profile: None,
        path: s("/nix/store/b-2"),
        required_filenames: names(&["kernel-2.efi", "initrd-2.efi", "nixos-generation-2.conf"]),
    }
}

fn update(installed: Option<usize>, tool: &str) -> SystemdBootPlanState {
    SystemdBootPlanState::Update {
        bootctl: s("bootctl"),
        esp: s("/boot"),
        bootloader_version: installed.map(SystemdBootVersion::new),
        systemd_version: SystemdVersion::new(tool),
    }
}

fn full_plan() -> Vec<SystemdBootPlanState> {
    vec![
        SystemdBootPlanState::Start,
        update(Some(246), "247"),
        SystemdBootPlanState::PruneFiles {
            wanted_generations: vec![generation_two()],
            paths: names(&["/gen", "/boot"]),
        },
        SystemdBootPlanState::ReplaceFiles {
            signing_info: None,
            to_replace: vec![FileToReplace {
                generated_loc: s("/gen/EFI/nixos/kernel-2.efi"),
                esp_loc: s("/boot/EFI/nixos/kernel-2.efi"),
            }],
        },
        SystemdBootPlanState::WriteLoader {
            path: s("/gen/loader/loader.conf"),
            timeout: Some(1),
            index: 2,
            editor: true,
            console_mode: s("max"),
        },
        SystemdBootPlanState::CopyToEsp { generated_entries: s("/gen"), esp: s("/boot") },
        SystemdBootPlanState::Syncfs { esp: s("/boot") },
        SystemdBootPlanState::End,
    ]
}

#[test]
fn a_plan_compiles_to_its_operations_in_order() {
    let required = names(&["kernel-2.efi", "initrd-2.efi", "nixos-generation-2.conf"]);
    assert_eq!(
        compile(&env(), &full_plan()),
        vec![
            Op::Run {
                program: s("bootctl"),
                args: names(&["update", "--path", "/boot"]),
                quiet: false,
                failure: Failure::Command,
                subject: s("/boot"),
            },
            Op::ListEntries { root: s("/gen"), required: required.clone() },
            Op::ListEntries { root: s("/boot"), required: required.clone() },
            Op::ReadSum { path: s("/gen/EFI/nixos/kernel-2.efi"), side: Side::Generated },
            Op::ReadSum { path: s("/boot/EFI/nixos/kernel-2.efi"), side: Side::Esp },
            Op::Decide {
                generated: s("/gen/EFI/nixos/kernel-2.efi"),
                esp: s("/boot/EFI/nixos/kernel-2.efi")
            },
            Op::WriteFile {
                path: s("/gen/loader/loader.conf"),
                contents: s("timeout 1\ndefault nixos-generation-2.conf\nconsole-mode max\n"),
            },
            Op::CopyTree { from: s("/gen"), to: s("/boot") },
            Op::RemoveTree { path: s("/gen") },
            Op::Syncfs { path: s("/boot") },
        ]
    );
    assert_eq!(compile(&env(), &vec![]), vec![]);
}

#[test]
fn update_runs_only_for_an_older_boot_manager() {
    let run = |step: SystemdBootPlanState| compile(&env(), &vec![step]);
    assert_eq!(run(update(Some(246), "247")).len(), 1);
    assert!(matches!(run(update(Some(246), "247"))[0], Op::Run { .. }));
    assert_eq!(run(update(Some(247), "247")), vec![]);
    assert_eq!(run(update(Some(248), "247")), vec![]);
    assert_eq!(run(update(Some(1), "249.4")), vec![]);
    let none = run(update(None, "247"));
    assert_eq!(none.len(), 1);
    assert!(matches!(none[0], Op::Note { .. }));
    assert!(!none.iter().any(|op| matches!(op, Op::Run { .. })));
}

#[test]
fn install_removes_the_old_configuration_first() {
    let step = SystemdBootPlanState::Install {
        loader: Some(s("/boot/loader/loader.conf")),
        bootctl: s("bootctl"),
        esp: s("/boot"),
        can_touch_efi_vars: false,
    };
    assert_eq!(
        compile(&env(), &vec![step]),
        vec![
            Op::RemoveFile { path: s("/boot/loader/loader.conf") },
            Op::Run {
                program: s("bootctl"),
                args: names(&["install", "--path", "/boot", "--no-variables"]),
                quiet: false,
                failure: Failure::Command,
                subject: s("/boot"),
            },
        ]
    );
    assert_eq!(install_args("/boot", true), names(&["install", "--path", "/boot"]));
    assert_eq!(update_args("/efi"), names(&["update", "--path", "/efi"]));
}

#[test]
fn signed_images_are_compared_without_their_signatures() {
    let step = SystemdBootPlanState::ReplaceFiles {
        signing_info: Some(info()),
        to_replace: vec![
            FileToReplace { generated_loc: s("/gen/a.efi"), esp_loc: s("/boot/a.efi") },
            FileToReplace { generated_loc: s("/gen/b.conf"), esp_loc: s("/boot/b.conf") },
        ],
    };
    let verify = |failure, file: &str| Op::Run {
        program: s("sbverify"),
        args: names(&["--cert", "db.crt", file]),
        quiet: true,
        failure,
        subject: s(file),
    };
    let strip = |file: &str| Op::Run {
        program: s("/bin/sbattach"),
        args: names(&["--remove", file]),
        quiet: true,
        failure: Failure::Strip,
        subject: s(file),
    };
    assert_eq!(
        compile(&env(), &vec![step]),
        vec![
            verify(Failure::Verify, "/gen/a.efi"),
            verify(Failure::VerifyWarn, "/boot/a.efi"),
            Op::CopyFile { from: s("/gen/a.efi"), to: s("/tmp/generated") },
            Op::CopyFile { from: s("/boot/a.efi"), to: s("/tmp/esp") },
            strip("/tmp/generated"),
            strip("/tmp/esp"),
            Op::ReadSum { path: s("/tmp/generated"), side: Side::Generated },
            Op::ReadSum { path: s("/tmp/esp"), side: Side::Esp },
            Op::RemoveFile { path: s("/tmp/generated") },
            Op::RemoveFile { path: s("/tmp/esp") },
            Op::Decide { generated: s("/gen/a.efi"), esp: s("/boot/a.efi") },
            Op::ReadSum { path: s("/gen/b.conf"), side: Side::Generated },
            Op::ReadSum { path: s("/boot/b.conf"), side: Side::Esp },
            Op::Decide { generated: s("/gen/b.conf"), esp: s("/boot/b.conf") },
        ]
    );
    let sign = SystemdBootPlanState::SignFiles { signing_info: info(), to_sign: names(&["x.efi"]) };
    assert_eq!(
        compile(&env(), &vec![sign]),
        vec![Op::Run {
            program: s("sbsign"),
            args: names(&["--key", "db.key", "--cert", "db.crt", "--output", "x.efi", "x.efi"]),
            quiet: true,
            failure: Failure::Sign,
            subject: s("x.efi"),
        }]
    );
}

/// Answers every operation as a healthy system would and records what was
/// asked.
fn run(m: &mut Executor, esp_kernel: &[u8]) -> (Vec<Action>, Result<(), BootError>) {
    let mut asked = vec![];
    let mut action = m.action();
    for _ in 0..1000 {
        let event = match &action {
            Action::Finished { result } => return (asked, result.clone()),
            Action::Run { .. } => Event::Exit { success: true },
            Action::ListDir { path } if path == "/gen/loader/entries" => Event::Listing {
                names: Some(names(&["nixos-generation-1.conf", "nixos-generation-2.conf"])),
            },
            Action::ListDir { path } if path == "/gen/EFI/nixos" => Event::Listing {
                names: Some(names(&["kernel-1.efi", "kernel-2.efi", "initrd-2.efi"])),
            },
            Action::ListDir { path } if path == "/boot/loader/entries" => Event::Listing {
                names: Some(names(&["windows.conf", "nixos-generation-1.conf"])),
            },
            Action::ListDir { .. } => Event::Listing { names: None },
            Action::ReadFile { path } if path.starts_with("/gen") => {
                Event::Contents { bytes: b"kernel two".to_vec() }
            }
            Action::ReadFile { .. } => Event::Contents { bytes: esp_kernel.to_vec() },
            _ => Event::Done,
        };
        asked.push(action);
        action = m.next(event);
    }
    panic!("the run does not end");
}

#[test]
fn a_run_carries_out_every_step_in_order() {
    let mut m = Executor::new(&env(), &full_plan());
    assert!(!m.is_finished());
    let (asked, result) = run(&mut m, b"kernel one");
    assert_eq!(result, Ok(()));
    assert!(m.is_finished());
    let r = |path: &str| Action::RemoveFile { path: s(path) };
    assert_eq!(
        asked,
        vec![
            Action::Run {
                program: s("bootctl"),
                args: names(&["update", "--path", "/boot"]),
                quiet: false
            },
            Action::ListDir { path: s("/gen/loader/entries") },
            Action::ListDir { path: s("/gen/EFI/nixos") },
            r("/gen/loader/entries/nixos-generation-1.conf"),
            r("/gen/EFI/nixos/kernel-1.efi"),
            Action::ListDir { path: s("/boot/loader/entries") },
            Action::ListDir { path: s("/boot/EFI/nixos") },
            Action::Log {
                message: s("'/boot' holds no entries or no kernels, not removing anything")
            },
            Action::ReadFile { path: s("/gen/EFI/nixos/kernel-2.efi") },
            Action::ReadFile { path: s("/boot/EFI/nixos/kernel-2.efi") },
            Action::Log {
                message: s(
                    "/boot/EFI/nixos/kernel-2.efi is different from /gen/EFI/nixos/kernel-2.efi and will be replaced"
                )
            },
            Action::WriteFile {
                path: s("/gen/loader/loader.conf"),
                contents: s("timeout 1\ndefault nixos-generation-2.conf\nconsole-mode max\n"),
            },
            Action::CopyTree { from: s("/gen"), to: s("/boot") },
            Action::RemoveTree { path: s("/gen") },
            Action::Syncfs { path: s("/boot") },
        ]
    );
    // Once over, the run stays over.
    assert_eq!(m.next(Event::Done), Action::Finished { result: Ok(()) });
    assert_eq!(m.next(Event::Exit { success: false }), Action::Finished { result: Ok(()) });
}

#[test]
fn unchanged_files_are_dropped_from_the_staging_tree() {
    let mut m = Executor::new(&env(), &full_plan());
    let (asked, result) = run(&mut m, b"kernel two");
    assert_eq!(result, Ok(()));
    let decided = asked
        .iter()
        .position(|a| {
            a == &Action::Log {
                message: s(
                    "/boot/EFI/nixos/kernel-2.efi and /gen/EFI/nixos/kernel-2.efi are the same file",
                ),
            }
        })
        .unwrap();
    assert_eq!(asked[decided + 1], Action::RemoveFile { path: s("/gen/EFI/nixos/kernel-2.efi") });
    assert!(!asked.iter().any(|a| matches!(a, Action::Log { message } if message.contains("will be replaced"))));
}

#[test]
fn the_first_failure_ends_the_run() {
    let mut m = Executor::new(&env(), &full_plan());
    assert!(matches!(m.action(), Action::Run { .. }));
    let after = m.next(Event::Exit { success: false });
    let error = BootError::CommandFailed {
        program: s("bootctl"),
        args: names(&["update", "--path", "/boot"]),
    };
    assert_eq!(after, Action::Finished { result: Err(error.clone()) });
    assert!(m.is_finished());
    assert_eq!(m.next(Event::Done), Action::Finished { result: Err(error.clone()) });
    assert_eq!(m.action(), Action::Finished { result: Err(error) });

    let mut m = Executor::new(&env(), &full_plan());
    m.next(Event::Exit { success: true });
    assert_eq!(
        m.next(Event::Failed { message: s("permission denied") }),
        Action::Finished { result: Err(BootError::Io { message: s("permission denied") }) }
    );

    // An answer that does not fit the operation ends the run too.
    let mut m = Executor::new(&env(), &full_plan());
    assert_eq!(
        m.next(Event::Done),
        Action::Finished {
            result: Err(BootError::Io { message: s("the answer does not fit the operation") })
        }
    );
}

#[test]
fn a_failed_sync_does_not_end_the_run() {
    let plan = vec![SystemdBootPlanState::Syncfs { esp: s("/boot") }, SystemdBootPlanState::End];
    let mut m = Executor::new(&env(), &plan);
    assert_eq!(m.action(), Action::Syncfs { path: s("/boot") });
    assert_eq!(
        m.next(Event::Failed { message: s("EIO") }),
        Action::Finished { result: Ok(()) }
    );
}

#[test]
fn verification_fails_hard_for_staged_files_only() {
    let step = || SystemdBootPlanState::ReplaceFiles {
        signing_info: Some(info()),
        to_replace: vec![FileToReplace {
            generated_loc: s("/gen/a.efi"),
            esp_loc: s("/boot/a.efi"),
        }],
    };
    let mut m = Executor::new(&env(), &vec![step()]);
    assert_eq!(
        m.next(Event::Exit { success: false }),
        Action::Finished { result: Err(BootError::NotVerified { file: s("/gen/a.efi") }) }
    );

    let mut m = Executor::new(&env(), &vec![step()]);
    assert_eq!(
        m.next(Event::Exit { success: true }),
        Action::Run { program: s("sbverify"), args: names(&["--cert", "db.crt", "/boot/a.efi"]), quiet: true }
    );
    assert_eq!(
        m.next(Event::Exit { success: false }),
        Action::Log { message: s("/boot/a.efi could not be verified") }
    );
    assert_eq!(
        m.next(Event::Done),
        Action::CopyFile { from: s("/gen/a.efi"), to: s("/tmp/generated") }
    );
    assert_eq!(m.next(Event::Done), Action::CopyFile { from: s("/boot/a.efi"), to: s("/tmp/esp") });
    assert!(matches!(m.next(Event::Done), Action::Run { .. }));
    assert_eq!(
        m.next(Event::Exit { success: false }),
        Action::Finished { result: Err(BootError::NotStripped { file: s("/tmp/generated") }) }
    );
}

#[test]
fn signing_failure_names_the_file() {
    let sign = SystemdBootPlanState::SignFiles {
        signing_info: info(),
        to_sign: names(&["a.efi", "b.efi"]),
    };
    let mut m = Executor::new(&env(), &vec![sign]);
    assert!(matches!(m.next(Event::Exit { success: true }), Action::Run { .. }));
    assert_eq!(
        m.next(Event::Exit { success: false }),
        Action::Finished { result: Err(BootError::NotSigned { file: s("b.efi") }) }
    );
}
