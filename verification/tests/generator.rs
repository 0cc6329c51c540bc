use boot_manager::bootspec::{
    json_filename, BootJson, BootSpecPath, SpecialisationDescription, SpecialisationName,
    Specialisations, SystemConfigurationRoot, SCHEMA_VERSION,
};
use boot_manager::error::BootError;
use boot_manager::generator::bootable::{flatten, Bootable, BootableToplevel, EfiProgram};
use boot_manager::generator::systemd_boot::entry::entry as systemd_entry;
use boot_manager::generator::systemd_boot::{
    conf_path, efi_entry, efi_entry_impl, generate, get_machine_id, image_path, linux_entry,
    linux_entry_impl,
    root, unified_path, GenerateOp, Versioned,
};
use boot_manager::generator::{grub, parse_generation, Generation, Specialisation};

fn s(t: &str) -> String {
    String::from(t)
}

fn bootspec(hash: char) -> BootJson {
    let h: String = std::iter::repeat(hash).take(32).collect();
    BootJson {
        schema_version: SCHEMA_VERSION,
        label: s("NixOS 21.11 (Linux 5.12.19)"),
        kernel: format!("/nix/store/{}-linux-5.12.19/bzImage", h),
        kernel_params: vec![s("loglevel=4"), s("quiet")],
        init: format!("/nix/store/{}-nixos/init", h),
        initrd: format!("/nix/store/{}-initrd-linux-5.12.19/initrd", h),
        initrd_secrets: None,
        specialisation: Specialisations::new(),
        toplevel: SystemConfigurationRoot(format!("/nix/store/{}-nixos", h)),
    }
}

fn toplevel(hash: char, specialisation: Option<&str>, profile: Option<&str>) -> BootableToplevel {
    let spec = bootspec(hash);
    BootableToplevel {
        label: spec.label,
        kernel: spec.kernel,
        kernel_params: spec.kernel_params,
        init: spec.init,
        initrd: spec.initrd,
        toplevel: spec.toplevel,
        specialisation_name: specialisation.map(|n| SpecialisationName(s(n))),
        generation_index: 12,
        profile_name: profile.map(s),
    }
}

#[test]
fn titles_name_the_specialisation() {
    assert_eq!(toplevel('a', None, None).title(), "NixOS");
    assert_eq!(toplevel('a', Some("gaming"), None).title(), "NixOS (gaming)");
}

#[test]
fn version_line_names_generation_label_and_date() {
    assert_eq!(
        toplevel('a', None, None).version_built_on("2021-07-04"),
        "Generation 12 NixOS 21.11 (Linux 5.12.19), Built on 2021-07-04"
    );
    assert_eq!(
        toplevel('a', Some("gaming"), None).version_built_on("2021-07-04"),
        "Generation 12 NixOS 21.11 (Linux 5.12.19), Specialisation gaming, Built on 2021-07-04"
    );
    let line = toplevel('a', None, None).version(86400 * 365).unwrap();
    assert!(line.starts_with("Generation 12 NixOS 21.11 (Linux 5.12.19), Built on 19"));
    assert_eq!(line.len(), "Generation 12 NixOS 21.11 (Linux 5.12.19), Built on ".len() + 10);
    assert_eq!(toplevel('a', None, None).version(i64::MAX), Err(BootError::BadTimestamp));
    assert_eq!(toplevel('a', None, None).version(i64::MIN), Err(BootError::BadTimestamp));
    // A year of five digits is a date like any other.
    let far = toplevel('a', None, None).version(400_000_000_000).unwrap();
    assert!(far.starts_with("Generation 12 NixOS 21.11 (Linux 5.12.19), Built on "));
    assert!(toplevel('a', None, None).version(-100_000_000_000).is_ok());
}

#[test]
fn entry_files_have_their_paths() {
    assert_eq!(root(), "systemd-boot-entries");
    assert_eq!(conf_path(&None, &None, 1), "systemd-boot-entries/loader/entries/nixos-generation-1.conf");
    assert_eq!(
        conf_path(&Some(s("user")), &Some(SpecialisationName(s("gaming"))), 42),
        "systemd-boot-entries/loader/entries/nixos-user-generation-42-gaming.conf"
    );
    assert_eq!(
        image_path("/nix/store/eeee-linux-5.12.19/bzImage"),
        "/efi/nixos/eeee-linux-5.12.19-bzImage.efi"
    );
    assert_eq!(image_path("/boot/vmlinuz"), "/efi/nixos/-boot-vmlinuz.efi");
    assert_eq!(
        unified_path("/nix/store/bbbbbbbbbbbbbbbbbbbbbbbbbbbbbbbb-nixos"),
        Some(s("/efi/nixos/bbbbbbbbbbbbbbbbbbbbbbbbbbbbbbbb.efi"))
    );
    assert_eq!(unified_path("/nix/store/short"), None);
}

#[test]
fn linux_entry_has_its_text() {
    let (path, contents) = linux_entry(&toplevel('e', None, None), "0123abcd", "V");
    assert_eq!(path, "systemd-boot-entries/loader/entries/nixos-generation-12.conf");
    assert_eq!(
        contents.conf,
        "title NixOS
version Generation 12 V
linux /efi/nixos/eeeeeeeeeeeeeeeeeeeeeeeeeeeeeeee-linux-5.12.19-bzImage.efi
initrd /efi/nixos/eeeeeeeeeeeeeeeeeeeeeeeeeeeeeeee-initrd-linux-5.12.19-initrd.efi
options init=/nix/store/eeeeeeeeeeeeeeeeeeeeeeeeeeeeeeee-nixos/init loglevel=4 quiet
machine-id 0123abcd

"
    );
    assert_eq!(contents.kernel_src, Some(s("/nix/store/eeeeeeeeeeeeeeeeeeeeeeeeeeeeeeee-linux-5.12.19/bzImage")));
    assert_eq!(
        contents.kernel_dest,
        Some(s("systemd-boot-entries//efi/nixos/eeeeeeeeeeeeeeeeeeeeeeeeeeeeeeee-linux-5.12.19-bzImage.efi"))
    );
    assert_eq!(contents.unified_dest, None);
    assert!(contents.conf.ends_with("\n\n"));

    let (_, dated) = linux_entry_impl(&toplevel('e', None, None), "id", 0).unwrap();
    assert!(dated.conf.contains("version Generation 12 Generation 12 NixOS 21.11 (Linux 5.12.19), Built on "));
    assert_eq!(
        linux_entry_impl(&toplevel('e', None, None), "id", i64::MAX),
        Err(BootError::BadTimestamp)
    );
}

#[test]
fn efi_entry_has_its_text() {
    let efi = EfiProgram::new(toplevel('e', Some("gaming"), Some("user")));
    let (path, contents) = efi_entry(&efi, "0123abcd", "V").unwrap();
    assert_eq!(path, "systemd-boot-entries/loader/entries/nixos-user-generation-12-gaming.conf");
    assert_eq!(
        contents.conf,
        "title NixOS (gaming)\nversion Generation 12 V\nefi /efi/nixos/eeeeeeeeeeeeeeeeeeeeeeeeeeeeeeee.efi\nmachine-id 0123abcd\n\n"
    );
    assert_eq!(
        contents.unified_dest,
        Some(s("systemd-boot-entries//efi/nixos/eeeeeeeeeeeeeeeeeeeeeeeeeeeeeeee.efi"))
    );
    assert_eq!(contents.kernel_src, None);
    assert_eq!(
        efi.ukify_args("out.efi", "/tmp/cmdline"),
        vec![
            s("build"),
            s("--linux=/nix/store/eeeeeeeeeeeeeeeeeeeeeeeeeeeeeeee-nixos/kernel"),
            s("--initrd=/nix/store/eeeeeeeeeeeeeeeeeeeeeeeeeeeeeeee-nixos/initrd"),
            s("--cmdline=@/tmp/cmdline"),
            s("--os-release=@/nix/store/eeeeeeeeeeeeeeeeeeeeeeeeeeeeeeee-nixos/etc/os-release"),
            s("--output=out.efi"),
        ]
    );
    let short = || {
        let mut short = toplevel('e', None, None);
        short.toplevel = SystemConfigurationRoot(s("/nix/store/short"));
        EfiProgram::new(short)
    };
    assert_eq!(efi_entry(&short(), "id", "V"), Err(BootError::NotAStorePath));
    // A toplevel without a store hash is refused whatever the second.
    assert_eq!(efi_entry_impl(&short(), "id", 0), Err(BootError::NotAStorePath));
    assert_eq!(efi_entry_impl(&short(), "id", i64::MAX), Err(BootError::NotAStorePath));
    assert_eq!(efi_entry_impl(&efi, "id", i64::MAX), Err(BootError::BadTimestamp));
    let (dated_path, dated) = efi_entry_impl(&efi, "id", 0).unwrap();
    assert_eq!(dated_path, path);
    assert!(dated.conf.contains("\nefi /efi/nixos/eeeeeeeeeeeeeeeeeeeeeeeeeeeeeeee.efi\n"));
}

#[test]
fn machine_id_is_trimmed() {
    assert_eq!(get_machine_id("0123456789abcdef0123456789abcdef\n"), "0123456789abcdef0123456789abcdef");
    assert_eq!(get_machine_id("  id \t"), "id");
}

#[test]
fn links_are_parsed() {
    assert_eq!(parse_generation("/nix/var/nix/profiles/system-69-link"), Ok((69, None)));
    assert_eq!(
        parse_generation("/nix/var/nix/profiles/system-profiles/user-3-link"),
        Ok((3, Some(s("user"))))
    );
    assert_eq!(parse_generation("/nix/var/nix/profiles/system"), Err(BootError::NotAGeneration));
    assert_eq!(parse_generation(""), Err(BootError::NotAGeneration));
    assert_eq!(
        parse_generation("/nix/var/nix/profiles/system-99999999999999999999999999-link"),
        Err(BootError::BadIndex)
    );
}

#[test]
fn generations_are_flattened_with_their_specialisations() {
    let inputs = vec![
        Generation {
            index: 1,
            profile: None,
            bootspec: bootspec('a'),
            specialisations: vec![
                Specialisation { name: SpecialisationName(s("x")), bootspec: bootspec('b') },
                Specialisation { name: SpecialisationName(s("y")), bootspec: bootspec('c') },
            ],
        },
        Generation { index: 2, profile: Some(s("user")), bootspec: bootspec('d'), specialisations: vec![] },
    ];
    let flat = flatten(inputs).unwrap();
    let seen: Vec<(usize, Option<String>, String, Option<String>)> = flat
        .iter()
        .map(|t| {
            (
                t.generation_index,
                t.specialisation_name.as_ref().map(|n| n.0.clone()),
                t.toplevel.0.clone(),
                t.profile_name.clone(),
            )
        })
        .collect();
    let root = |c: char| format!("/nix/store/{}-nixos", std::iter::repeat(c).take(32).collect::<String>());
    assert_eq!(
        seen,
        vec![
            (1, None, root('a'), None),
            (1, Some(s("x")), root('b'), None),
            (1, Some(s("y")), root('c'), None),
            (2, None, root('d'), Some(s("user"))),
        ]
    );
    assert_eq!(flat[1].kernel_params, vec![s("loglevel=4"), s("quiet")]);
    assert!(flatten(vec![]).unwrap().is_empty());
}

#[test]
fn generating_decides_what_is_written() {
    let items = vec![
        Versioned { bootable: Bootable::Linux(toplevel('a', None, None)), version: s("V1") },
        Versioned { bootable: Bootable::Efi(EfiProgram::new(toplevel('b', None, None))), version: s("V2") },
    ];
    let ops = generate(&items, &Some(s("ukify")), &Some(s("stub.efi")), "id").unwrap();
    assert_eq!(ops.len(), 7);
    assert_eq!(ops[0], GenerateOp::CreateDirs { path: s("systemd-boot-entries/efi/nixos") });
    assert_eq!(ops[1], GenerateOp::CreateDirs { path: s("systemd-boot-entries/loader/entries") });
    assert!(matches!(&ops[2], GenerateOp::WriteFile { path, contents }
        if path == "systemd-boot-entries/loader/entries/nixos-generation-12.conf" && contents.contains("\nlinux ")));
    assert!(matches!(&ops[3], GenerateOp::LinkIfAbsent { src, .. } if src.ends_with("/bzImage")));
    assert!(matches!(&ops[4], GenerateOp::LinkIfAbsent { src, .. } if src.ends_with("/initrd")));
    assert!(matches!(&ops[5], GenerateOp::WriteFile { contents, .. } if contents.contains("\nefi ")));
    assert_eq!(
        ops[6],
        GenerateOp::BuildImage {
            ukify: s("ukify"),
            stub: s("stub.efi"),
            toplevel: s("/nix/store/bbbbbbbbbbbbbbbbbbbbbbbbbbbbbbbb-nixos"),
            outpath: s("systemd-boot-entries//efi/nixos/bbbbbbbbbbbbbbbbbbbbbbbbbbbbbbbb.efi"),
            command_line: s("init=/nix/store/bbbbbbbbbbbbbbbbbbbbbbbbbbbbbbbb-nixos/init loglevel=4 quiet"),
        }
    );
    assert_eq!(generate(&items, &None, &Some(s("stub.efi")), "id"), Err(BootError::NoImageBuilder));
    assert_eq!(generate(&items, &Some(s("ukify")), &None, "id"), Err(BootError::NoImageBuilder));
    assert_eq!(generate(&items[..1].iter().map(|i| Versioned {
        bootable: match &i.bootable { Bootable::Linux(_) => Bootable::Linux(toplevel('a', None, None)), Bootable::Efi(_) => unreachable!() },
        version: i.version.clone() }).collect(), &None, &None, "id").unwrap().len(), 5);
}

#[test]
fn entries_of_a_generation_cover_its_specialisations() {
    let specs = vec![Specialisation { name: SpecialisationName(s("x")), bootspec: bootspec('b') }];
    let entries = systemd_entry(&bootspec('a'), 5, &None, false, &specs, "id", "2021-07-04").unwrap();
    assert_eq!(entries.len(), 2);
    assert_eq!(entries[0].0, "systemd-boot-entries/loader/entries/nixos-generation-5.conf");
    assert_eq!(entries[1].0, "systemd-boot-entries/loader/entries/nixos-generation-5-x.conf");
    assert!(entries[1].1.conf.starts_with("title NixOS (x)\n"));
    assert!(entries[0].1.conf.contains(", Built on 2021-07-04\nlinux "));

    let signed = systemd_entry(&bootspec('a'), 5, &Some(s("p")), true, &vec![], "id", "2021-07-04").unwrap();
    assert_eq!(signed.len(), 1);
    assert!(signed[0].1.conf.contains(", Built on 2021-07-04 (Secure Boot)\nefi /efi/nixos/aaaaaaaaaaaaaaaaaaaaaaaaaaaaaaaa.efi\n"));
    assert_eq!(grub::entry(&bootspec('a'), 1, &None), Ok(()));
}

#[test]
fn specialisations_keep_one_entry_per_name() {
    let mut specs = Specialisations::new();
    let path = |p: &str| SpecialisationDescription { bootspec: BootSpecPath(s(p)) };
    specs.insert(SpecialisationName(s("a")), path("/1"));
    specs.insert(SpecialisationName(s("b")), path("/2"));
    specs.insert(SpecialisationName(s("a")), path("/3"));
    assert_eq!(specs.len(), 2);
    assert_eq!(specs.name_at(0), &SpecialisationName(s("a")));
    assert_eq!(specs.description_at(0), &path("/3"));
    assert_eq!(specs.name_at(1), &SpecialisationName(s("b")));
    assert_eq!(json_filename(), "boot.v1.json");
}
