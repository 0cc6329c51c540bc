use boot_manager::error::BootError;
use boot_manager::installer::options::{Args, OptionalSigningInfo};
use boot_manager::installer::secure_boot::SigningInfo;
use boot_manager::installer::systemd_boot::{
    create_loader_conf, efi_nixos_dir, entry_is_stale, get_required_filenames, install,
    loader_entries_dir, stale_artifacts, stale_entries,
};
use boot_manager::installer::util::Generation;

#[test]
fn test_create_bootloader_config() {
    assert_eq!(
        create_loader_conf(Some(1), 125, true, "max").unwrap(),
        r#"timeout 1
default nixos-generation-125.conf
console-mode max
"#
    );
    assert_eq!(
        create_loader_conf(Some(2), 126, false, "max").unwrap(),
        r#"timeout 2
default nixos-generation-126.conf
editor 0
console-mode max
"#
    );
}

#[test]
fn loader_config_without_timeout_has_no_timeout_line() {
    assert_eq!(
        create_loader_conf(None, 0, false, "keep").unwrap(),
        "default nixos-generation-0.conf\neditor 0\nconsole-mode keep\n"
    );
    assert_eq!(
        create_loader_conf(Some(0), 18446744073709551615, true, "").unwrap(),
        "timeout 0\ndefault nixos-generation-18446744073709551615.conf\nconsole-mode \n"
    );
}

#[test]
fn test_get_known_filenames() {
    let generations = vec![
        Generation {
            idx: 1,
            profile: None,
            required_filenames: vec![
                String::from("nixos-generation-1.conf"),
                String::from("kernel-1"),
                String::from("initrd-1"),
            ],
            ..Default::default()
        },
        Generation {
            idx: 2,
            profile: None,
            required_filenames: vec![
                String::from("nixos-generation-2.conf"),
                String::from("kernel-2"),
                String::from("initrd-2"),
            ],
            ..Default::default()
        },
    ];

    let required_filenames = get_required_filenames(generations.clone());

    for gen in generations {
        assert!(gen.required_filenames.iter().any(|e| required_filenames.contains(e)));
        assert!(gen.required_filenames.iter().any(|e| required_filenames.contains(e)));
        assert!(gen.required_filenames.iter().any(|e| required_filenames.contains(e)));
    }
    assert_eq!(
        required_filenames,
        vec![
            "nixos-generation-1.conf",
            "kernel-1",
            "initrd-1",
            "nixos-generation-2.conf",
            "kernel-2",
            "initrd-2"
        ]
    );
    assert_eq!(get_required_filenames(vec![]), Vec::<String>::new());
}

fn names(list: &[&str]) -> Vec<String> {
    list.iter().map(|s| s.to_string()).collect()
}

#[test]
fn pruning_never_touches_unmanaged_entries() {
    let listed = names(&[
        "nixos-generation-1.conf",
        "nixos-generation-2.conf",
        "nixos-test-generation-7.conf",
        "memtest86.conf",
        "windows.conf",
        "generation-3.conf",
        "nixos-generation-.conf",
        "nixos-generation-3.conf.bak",
        "old-nixos-generation-3.conf",
        "nixos-generation-3xconf",
        "nixos-generation-3-gaming.conf",
        "nixos-a-b-generation-3.conf",
        "nixos-generation-3.conf\n",
    ]);
    let required = names(&["nixos-generation-2.conf", "kernel-2"]);
    assert_eq!(
        stale_entries(&listed, &required),
        Ok(names(&["nixos-generation-1.conf", "nixos-test-generation-7.conf"]))
    );
    // With nothing required every managed entry goes, and still no other.
    assert_eq!(
        stale_entries(&listed, &vec![]),
        Ok(names(&[
            "nixos-generation-1.conf",
            "nixos-generation-2.conf",
            "nixos-test-generation-7.conf"
        ]))
    );
    assert_eq!(stale_entries(&vec![], &required), Ok(vec![]));
}

#[test]
fn entry_is_stale_only_if_managed_and_not_required() {
    let required = names(&["a.conf"]);
    assert!(entry_is_stale(true, "b.conf", &required));
    assert!(!entry_is_stale(true, "a.conf", &required));
    assert!(!entry_is_stale(false, "b.conf", &required));
    assert!(!entry_is_stale(false, "a.conf", &required));
}

#[test]
fn artifacts_are_stale_unless_required() {
    let listed = names(&["kernel-1", "initrd-1", "kernel-2", "initrd-2", "notes.txt"]);
    let required = names(&["kernel-2", "initrd-2", "nixos-generation-2.conf"]);
    assert_eq!(stale_artifacts(&listed, &required), names(&["kernel-1", "initrd-1", "notes.txt"]));
    assert_eq!(stale_artifacts(&listed, &listed), Vec::<String>::new());
}

#[test]
fn directories_of_a_tree() {
    assert_eq!(loader_entries_dir("/boot"), "/boot/loader/entries");
    assert_eq!(efi_nixos_dir("/boot/"), "/boot/EFI/nixos");
}

#[test]
fn install_checks_arguments_first() {
    let gens = vec![
        Generation { idx: 1, ..Default::default() },
        Generation { idx: 2, ..Default::default() },
        Generation { idx: 3, ..Default::default() },
    ];
    let mut args = Args::default();
    assert_eq!(install(&args, gens.clone()).unwrap_err(), BootError::NoEsp);
    args.esp = vec![String::from("/boot")];
    assert_eq!(install(&args, gens.clone()).unwrap_err(), BootError::NoBootctl);
    args.bootctl = Some(String::from("/bin/bootctl"));
    args.configuration_limit = Some(2);
    let ready = install(&args, gens.clone()).unwrap();
    assert_eq!(ready.bootctl, "/bin/bootctl");
    assert_eq!(ready.wanted_generations, gens[1..].to_vec());
}

#[test]
fn signing_settings_come_all_or_none() {
    let s = |t: &str| Some(String::from(t));
    assert_eq!(OptionalSigningInfo::from_parts(None, None, None, None).unwrap().0, None);
    assert_eq!(
        OptionalSigningInfo::from_parts(s("k"), s("c"), s("sign"), s("verify")).unwrap().0,
        Some(SigningInfo {
            signing_key: String::from("k"),
            signing_cert: String::from("c"),
            sbsign: String::from("sign"),
            sbverify: String::from("verify"),
        })
    );
    for missing in 0..4 {
        let mut parts = [s("k"), s("c"), s("sign"), s("verify")];
        parts[missing] = None;
        let [k, c, sign, verify] = parts;
        assert_eq!(
            OptionalSigningInfo::from_parts(k, c, sign, verify).unwrap_err(),
            BootError::IncompleteSigningInfo
        );
    }
    assert_eq!(
        OptionalSigningInfo::from_parts(s("k"), None, None, None).unwrap_err(),
        BootError::IncompleteSigningInfo
    );
    let wrapped: OptionalSigningInfo = None.into();
    assert_eq!(wrapped.0, None);
    assert_eq!(wrapped.get(), &None);
}

#[test]
fn signing_tools_get_their_arguments() {
    let info = SigningInfo {
        signing_key: String::from("db.key"),
        signing_cert: String::from("db.crt"),
        sbsign: String::from("sbsign"),
        sbverify: String::from("sbverify"),
    };
    assert_eq!(
        info.sign_args("/boot/a.efi"),
        names(&["--key", "db.key", "--cert", "db.crt", "--output", "/boot/a.efi", "/boot/a.efi"])
    );
    assert_eq!(info.verify_args("/boot/a.efi"), names(&["--cert", "db.crt", "/boot/a.efi"]));
    assert_eq!(SigningInfo::sign_result("a.efi", true), Ok(()));
    assert_eq!(
        SigningInfo::sign_result("a.efi", false),
        Err(BootError::NotSigned { file: String::from("a.efi") })
    );
    assert_eq!(SigningInfo::verify_result("a.efi", true), Ok(()));
    assert_eq!(
        SigningInfo::verify_result("a.efi", false),
        Err(BootError::NotVerified { file: String::from("a.efi") })
    );
    assert_eq!(
        SigningInfo::sign_result("a.efi", false).unwrap_err().message(),
        "a.efi could not be signed"
    );
}
