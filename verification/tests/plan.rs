use std::path::PathBuf;

use boot_manager::installer::files::{FileToReplace, IdentifiedFiles};
use boot_manager::installer::options::{Args, OptionalSigningInfo};
use boot_manager::installer::secure_boot::SigningInfo;
use boot_manager::installer::systemd_boot::plan::{
    create_plan, find_default_generation, PlanArgs, SystemdBootPlanState,
};
use boot_manager::installer::systemd_boot::version::systemd::SystemdVersion;
use boot_manager::installer::systemd_boot::version::systemd_boot::SystemdBootVersion;
use boot_manager::installer::util::{wanted_generations, Generation};

fn joined(base: &str, rel: &str) -> String {
    PathBuf::from(base).join(rel).display().to_string()
}

fn scaffold(
    install: bool,
    signing_info: Option<SigningInfo>,
) -> (Args, Vec<Generation>, Generation, IdentifiedFiles) {
    let args = Args {
        toplevel: String::from("toplevel"),
        dry_run: false,
        generated_entries: String::from("generated_entries"),
        timeout: Some(1),
        console_mode: String::from("max"),
        configuration_limit: Some(1),
        editor: false,
        verbosity: 0,
        install,
        esp: vec![String::from("esp")],
        can_touch_efi_vars: false,
        bootctl: Some(String::from("bootctl")),
        unified_efi: false,
        signing_info: OptionalSigningInfo(signing_info),
    };
    let system_generations = vec![
        Generation {
            idx: 1,
            profile: None,
            path: String::from("1"),
            required_filenames: vec![
                String::from("nixos-generation-1.conf"),
                String::from("abcd-linux-5.12.9-bzImage.efi"),
                String::from("abcd-initrd-linux-5.12.9-initrd.efi"),
            ],
        },
        Generation {
            idx: 2,
            profile: None,
            path: String::from("2"),
            required_filenames: vec![
                String::from("nixos-generation-2.conf"),
                String::from("abcd-linux-5.12.9-bzImage.efi"),
                String::from("abcd-initrd-linux-5.12.9-initrd.efi"),
            ],
        },
    ];
    let wanted_generations = wanted_generations(system_generations, args.configuration_limit);
    let default_generation = Generation {
        idx: 2,
        profile: None,
        path: String::from("2"),
        required_filenames: vec![
            String::from("nixos-generation-2.conf"),
            String::from("abcd-linux-5.12.9-bzImage.efi"),
            String::from("abcd-initrd-linux-5.12.9-initrd.efi"),
        ],
    };
    let identified_files = IdentifiedFiles {
        to_sign: vec![
            String::from("abcd-linux-5.12.9-bzImage.efi"),
            String::from("abcd-initrd-linux-5.12.9-initrd.efi"),
        ],
        to_replace: vec![],
    };

    (args, wanted_generations, default_generation, identified_files)
}

#[test]
fn test_update_plan() {
    let (args, wanted_generations, default_generation, identified_files) = scaffold(false, None);
    let bootctl = args.bootctl.as_ref().unwrap();
    let esp = &args.esp[0];
    let plan_args = PlanArgs {
        args: &args,
        bootctl,
        esp,
        wanted_generations: &wanted_generations,
        toplevel: Some(default_generation.path.clone()),
        identified_files,
        loader_exists: false,
        bootloader_version: Some(SystemdBootVersion::new(246)),
        systemd_version: SystemdVersion::new(247),
    };

    let plan = create_plan(plan_args).unwrap();

    assert_eq!(
        plan,
        vec![
            SystemdBootPlanState::Start,
            SystemdBootPlanState::Update {
                bootctl: bootctl.clone(),
                esp: esp.clone(),
                bootloader_version: Some(SystemdBootVersion::new(246)),
                systemd_version: SystemdVersion::new("247"),
            },
            SystemdBootPlanState::PruneFiles {
                wanted_generations: wanted_generations.clone(),
                paths: vec![args.generated_entries.clone(), esp.clone()],
            },
            SystemdBootPlanState::ReplaceFiles { signing_info: None, to_replace: vec![] },
            SystemdBootPlanState::WriteLoader {
                path: joined(&args.generated_entries, "loader/loader.conf"),
                timeout: args.timeout,
                index: default_generation.idx,
                editor: args.editor,
                console_mode: args.console_mode.clone(),
            },
            SystemdBootPlanState::CopyToEsp {
                generated_entries: args.generated_entries.clone(),
                esp: esp.clone(),
            },
            SystemdBootPlanState::Syncfs { esp: esp.clone() },
            SystemdBootPlanState::End
        ]
    );
}

#[test]
fn test_install_plan() {
    let (args, wanted_generations, default_generation, identified_files) = scaffold(true, None);
    let bootctl = args.bootctl.as_ref().unwrap();
    let esp = &args.esp[0];
    let plan_args = PlanArgs {
        args: &args,
        bootctl,
        esp,
        wanted_generations: &wanted_generations,
        toplevel: Some(default_generation.path.clone()),
        identified_files,
        loader_exists: false,
        bootloader_version: None,
        systemd_version: SystemdVersion::new(247),
    };

    let plan = create_plan(plan_args).unwrap();

    assert_eq!(
        plan,
        vec![
            SystemdBootPlanState::Start,
            SystemdBootPlanState::Install {
                loader: None,
                bootctl: bootctl.clone(),
                esp: esp.clone(),
                can_touch_efi_vars: args.can_touch_efi_vars,
            },
            SystemdBootPlanState::PruneFiles {
                wanted_generations: wanted_generations.clone(),
                paths: vec![args.generated_entries.clone(), esp.clone()],
            },
            SystemdBootPlanState::ReplaceFiles { signing_info: None, to_replace: vec![] },
            SystemdBootPlanState::WriteLoader {
                path: joined(&args.generated_entries, "loader/loader.conf"),
                timeout: args.timeout,
                index: default_generation.idx,
                editor: args.editor,
                console_mode: args.console_mode.clone(),
            },
            SystemdBootPlanState::CopyToEsp {
                generated_entries: args.generated_entries.clone(),
                esp: esp.clone(),
            },
            SystemdBootPlanState::Syncfs { esp: esp.clone() },
            SystemdBootPlanState::End
        ]
    );
}

#[test]
fn test_sign_plan() {
    let signing_info = SigningInfo {
        signing_key: String::from("db.key"),
        signing_cert: String::from("db.crt"),
        sbsign: String::from("sbsign"),
        sbverify: String::from("sbverify"),
    };
    let (args, wanted_generations, default_generation, identified_files) =
        scaffold(false, Some(signing_info));
    let bootctl = args.bootctl.as_ref().unwrap();
    let esp = &args.esp[0];
    let plan_args = PlanArgs {
        args: &args,
        bootctl,
        esp,
        wanted_generations: &wanted_generations,
        toplevel: Some(default_generation.path.clone()),
        identified_files: identified_files.clone(),
        loader_exists: false,
        bootloader_version: None,
        systemd_version: SystemdVersion::new(247),
    };

    let plan = create_plan(plan_args).unwrap();
    let mut to_sign = vec![];
    to_sign.push(joined(esp, "EFI/systemd/systemd-bootx64.efi"));
    to_sign.push(joined(esp, "EFI/BOOT/BOOTX64.EFI"));
    to_sign.extend(identified_files.to_sign);

    assert_eq!(
        plan,
        vec![
            SystemdBootPlanState::Start,
            SystemdBootPlanState::Update {
                bootctl: bootctl.clone(),
                esp: esp.clone(),
                bootloader_version: None,
                systemd_version: SystemdVersion::new("247"),
            },
            SystemdBootPlanState::SignFiles {
                signing_info: args.signing_info.0.clone().unwrap(),
                to_sign
            },
            SystemdBootPlanState::PruneFiles {
                wanted_generations: wanted_generations.clone(),
                paths: vec![args.generated_entries.clone(), esp.clone()],
            },
            SystemdBootPlanState::ReplaceFiles {
                signing_info: args.signing_info.0.clone(),
                to_replace: vec![],
            },
            SystemdBootPlanState::WriteLoader {
                path: joined(&args.generated_entries, "loader/loader.conf"),
                timeout: args.timeout,
                index: default_generation.idx,
                editor: args.editor,
                console_mode: args.console_mode.clone(),
            },
            SystemdBootPlanState::CopyToEsp {
                generated_entries: args.generated_entries.clone(),
                esp: esp.clone(),
            },
            SystemdBootPlanState::Syncfs { esp: esp.clone() },
            SystemdBootPlanState::End
        ]
    );
}

fn two_generations() -> Vec<Generation> {
    vec![
        Generation {
            idx: 1,
            profile: None,
            path: String::from("/nix/store/aaaaaaaaaaaaaaaaaaaaaaaaaaaaaaaa-nixos-1"),
            required_filenames: vec![
                String::from("aaaaaaaaaaaaaaaaaaaaaaaaaaaaaaaa-linux-bzImage.efi"),
                String::from("aaaaaaaaaaaaaaaaaaaaaaaaaaaaaaaa-initrd-initrd.efi"),
                String::from("nixos-generation-1.conf"),
            ],
        },
        Generation {
            idx: 2,
            profile: None,
            path: String::from("/nix/store/bbbbbbbbbbbbbbbbbbbbbbbbbbbbbbbb-nixos-2"),
            required_filenames: vec![
                String::from("bbbbbbbbbbbbbbbbbbbbbbbbbbbbbbbb-linux-bzImage.efi"),
                String::from("bbbbbbbbbbbbbbbbbbbbbbbbbbbbbbbb-initrd-initrd.efi"),
                String::from("nixos-generation-2.conf"),
            ],
        },
    ]
}

fn plan_for(
    args: &Args,
    wanted: &Vec<Generation>,
    toplevel: Option<String>,
    loader_exists: bool,
) -> Vec<SystemdBootPlanState> {
    create_plan(PlanArgs {
        args,
        bootctl: "bootctl",
        esp: "/boot",
        wanted_generations: wanted,
        toplevel,
        identified_files: IdentifiedFiles {
            to_sign: vec![],
            to_replace: vec![FileToReplace {
                generated_loc: String::from("/gen/loader/entries/nixos-generation-2.conf"),
                esp_loc: String::from("/boot/loader/entries/nixos-generation-2.conf"),
            }],
        },
        loader_exists,
        bootloader_version: Some(SystemdBootVersion::new(250)),
        systemd_version: SystemdVersion::new("251.4"),
    })
    .unwrap()
}

#[test]
fn plan_limited_to_newest_generation_defaults_to_it() {
    let (mut args, _, _, _) = scaffold(false, None);
    args.configuration_limit = Some(1);
    let wanted = wanted_generations(two_generations(), args.configuration_limit);
    let toplevel = Some(two_generations()[1].path.clone());
    let plan = plan_for(&args, &wanted, toplevel, false);

    let mut loaders = 0;
    let mut prunes = 0;
    for step in &plan {
        match step {
            SystemdBootPlanState::WriteLoader { index, .. } => {
                loaders += 1;
                assert_eq!(*index, 2);
            }
            SystemdBootPlanState::PruneFiles { wanted_generations, paths } => {
                prunes += 1;
                assert_eq!(wanted_generations.len(), 1);
                assert_eq!(
                    wanted_generations[0].required_filenames,
                    two_generations()[1].required_filenames
                );
                assert_eq!(
                    paths,
                    &vec![String::from("generated_entries"), String::from("/boot")]
                );
            }
            _ => {}
        }
    }
    assert_eq!(loaders, 1);
    assert_eq!(prunes, 1);
}

#[test]
fn plan_without_matching_default_writes_no_loader_config() {
    let (mut args, _, _, _) = scaffold(false, None);
    args.configuration_limit = Some(1);
    let wanted = wanted_generations(two_generations(), args.configuration_limit);
    // The toplevel is the generation that the limit has dropped.
    let toplevel = Some(two_generations()[0].path.clone());
    let plan = plan_for(&args, &wanted, toplevel, false);
    assert_eq!(plan.len(), 7);
    assert!(!plan.iter().any(|s| matches!(s, SystemdBootPlanState::WriteLoader { .. })));

    let plan = plan_for(&args, &wanted, None, false);
    assert!(!plan.iter().any(|s| matches!(s, SystemdBootPlanState::WriteLoader { .. })));
}

fn position(plan: &Vec<SystemdBootPlanState>, wanted: fn(&SystemdBootPlanState) -> bool) -> usize {
    let found: Vec<usize> =
        plan.iter().enumerate().filter(|(_, s)| wanted(s)).map(|(i, _)| i).collect();
    assert_eq!(found.len(), 1);
    found[0]
}

#[test]
fn plan_steps_are_ordered() {
    for install in [false, true] {
        for signing in [false, true] {
            let info = if signing {
                Some(SigningInfo {
                    signing_key: String::from("k"),
                    signing_cert: String::from("c"),
                    sbsign: String::from("s"),
                    sbverify: String::from("v"),
                })
            } else {
                None
            };
            let (args, _, _, _) = scaffold(install, info);
            let wanted = two_generations();
            let toplevel = Some(wanted[1].path.clone());
            let plan = plan_for(&args, &wanted, toplevel, true);

            let prune = position(&plan, |s| matches!(s, SystemdBootPlanState::PruneFiles { .. }));
            let write = position(&plan, |s| matches!(s, SystemdBootPlanState::WriteLoader { .. }));
            let copy = position(&plan, |s| matches!(s, SystemdBootPlanState::CopyToEsp { .. }));
            let sync = position(&plan, |s| matches!(s, SystemdBootPlanState::Syncfs { .. }));
            assert!(prune < copy);
            assert!(write < copy);
            assert_eq!(sync, plan.len() - 2);
            assert_eq!(plan[0], SystemdBootPlanState::Start);
            assert_eq!(plan[plan.len() - 1], SystemdBootPlanState::End);

            let first = plan
                .iter()
                .filter(|s| {
                    matches!(
                        s,
                        SystemdBootPlanState::Install { .. } | SystemdBootPlanState::Update { .. }
                    )
                })
                .count();
            assert_eq!(first, 1);
            assert_eq!(matches!(plan[1], SystemdBootPlanState::Install { .. }), install);
            assert_eq!(
                plan.iter().any(|s| matches!(s, SystemdBootPlanState::SignFiles { .. })),
                signing
            );
        }
    }
}

#[test]
fn plan_is_the_same_on_every_call() {
    let (args, _, _, _) = scaffold(false, None);
    let wanted = two_generations();
    let toplevel = Some(wanted[0].path.clone());
    let first = plan_for(&args, &wanted, toplevel.clone(), false);
    let second = plan_for(&args, &wanted, toplevel, false);
    assert_eq!(first, second);
    assert_eq!(format!("{:?}", first), format!("{:?}", second));
}

#[test]
fn install_plan_names_existing_loader_config() {
    let (args, _, _, _) = scaffold(true, None);
    let wanted = two_generations();
    let plan = plan_for(&args, &wanted, None, true);
    assert_eq!(
        plan[1],
        SystemdBootPlanState::Install {
            loader: Some(String::from("/boot/loader/loader.conf")),
            bootctl: String::from("bootctl"),
            esp: String::from("/boot"),
            can_touch_efi_vars: false,
        }
    );
}

#[test]
fn default_generation_is_the_newest_match() {
    let mut gens = two_generations();
    gens.push(Generation { idx: 3, path: gens[0].path.clone(), ..Default::default() });
    assert_eq!(find_default_generation(&gens, &Some(gens[0].path.clone())), Some(2));
    assert_eq!(find_default_generation(&gens, &Some(gens[1].path.clone())), Some(1));
    assert_eq!(find_default_generation(&gens, &Some(String::from("/other"))), None);
    assert_eq!(find_default_generation(&gens, &None), None);
    assert_eq!(find_default_generation(&vec![], &Some(String::from("/other"))), None);
}
