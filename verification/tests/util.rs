use boot_manager::error::BootError;
use boot_manager::installer::copy::{
    atomic_tmp_copy, atomic_tmp_copy_file, child, create_dirs_to_file, parent, tmp_path, CopyOp,
    TreeEntry,
};
use boot_manager::installer::util::{
    all_generations, entry_filename, generation_glob, index_of_capture, link_index,
    profile_path, store_path_to_efi_filename, unified_efi_filename, wanted_generations,
    Generation, GenerationLink,
};

#[test]
fn test_wanted_generations() {
    let gens = [
        vec![
            Generation {
                idx: 1,
                profile: None,
                required_filenames: vec![String::from("nixos-generation-1.conf")],
                ..Default::default()
            },
            Generation {
                idx: 2,
                profile: None,
                required_filenames: vec![String::from("nixos-generation-2.conf")],
                ..Default::default()
            },
        ],
        vec![
            Generation {
                idx: 1,
                profile: Some(String::from("test")),
                required_filenames: vec![String::from("nixos-generation-1.conf")],
                ..Default::default()
            },
            Generation {
                idx: 2,
                profile: Some(String::from("test")),
                required_filenames: vec![String::from("nixos-generation-2.conf")],
                ..Default::default()
            },
        ],
    ];

    for generations in gens {
        let ret_generations = wanted_generations(generations.clone(), None);
        assert_eq!(ret_generations.len(), 2);
        assert_eq!(ret_generations[0], generations[0]);
        assert_eq!(ret_generations[1], generations[1]);

        let ret_generations = wanted_generations(generations.clone(), Some(1));
        assert_eq!(ret_generations.len(), 1);
        assert_eq!(ret_generations[0], generations[1]);
        assert_eq!(ret_generations.get(1), None);
    }
}

#[test]
fn wanted_generations_keeps_the_last_n_in_order() {
    let gens: Vec<Generation> =
        (1..=5).map(|idx| Generation { idx, ..Default::default() }).collect();
    for n in 0..8 {
        let kept = wanted_generations(gens.clone(), Some(n));
        let expect = if n >= 5 { &gens[..] } else { &gens[5 - n..] };
        assert_eq!(kept, expect);
    }
    assert_eq!(wanted_generations(gens.clone(), None), gens);
    assert_eq!(wanted_generations(vec![], Some(3)), vec![]);
    assert_eq!(wanted_generations(gens.clone(), Some(usize::MAX)), gens);
}

#[test]
fn test_profile_path() {
    assert_eq!(profile_path(&None), "/nix/var/nix/profiles/system");
    assert_eq!(
        profile_path(&Some(String::from("user"))),
        "/nix/var/nix/profiles/system-profiles/user"
    );
}

#[test]
fn generation_links_are_globbed_below_the_profile() {
    assert_eq!(generation_glob(&None), "/nix/var/nix/profiles/system-*-link");
    assert_eq!(
        generation_glob(&Some(String::from("user"))),
        "/nix/var/nix/profiles/system-profiles/user-*-link"
    );
}

#[test]
fn test_store_path_to_efi_filename() {
    assert_eq!(
        store_path_to_efi_filename(String::from(
            "/nix/store/aaaaaaaaaaaaaaaaaaaaaaaaaaaaaaaa-efi/some/file/here"
        ))
        .unwrap(),
        "aaaaaaaaaaaaaaaaaaaaaaaaaaaaaaaa-efi-some-file-here.efi"
    );
    assert!(store_path_to_efi_filename(String::from("/foo/bar")).is_err());
    assert_eq!(
        store_path_to_efi_filename(String::from("/foo/bar")),
        Err(BootError::NotAStorePath)
    );
    assert_eq!(
        store_path_to_efi_filename(String::from("nix/store/abc")),
        Err(BootError::NotAStorePath)
    );
    assert_eq!(store_path_to_efi_filename(String::from("/nix/store/")).unwrap(), ".efi");
}

#[test]
fn unified_image_is_named_by_the_store_hash() {
    assert_eq!(
        unified_efi_filename("/nix/store/bbbbbbbbbbbbbbbbbbbbbbbbbbbbbbbb-nixos-system-21.11").unwrap(),
        "bbbbbbbbbbbbbbbbbbbbbbbbbbbbbbbb.efi"
    );
    assert_eq!(
        unified_efi_filename("/nix/store/bbbbbbbbbbbbbbbbbbbbbbbbbbbbbbbb").unwrap(),
        "bbbbbbbbbbbbbbbbbbbbbbbbbbbbbbbb.efi"
    );
    assert_eq!(unified_efi_filename("/nix/store/short"), Err(BootError::NotAStorePath));
    assert_eq!(
        unified_efi_filename("/var/bbbbbbbbbbbbbbbbbbbbbbbbbbbbbbbb-nixos"),
        Err(BootError::NotAStorePath)
    );
}

#[test]
fn entry_files_are_named_by_profile_and_index() {
    assert_eq!(entry_filename(&None, 125), "nixos-generation-125.conf");
    assert_eq!(entry_filename(&Some(String::from("test")), 7), "nixos-test-generation-7.conf");
}

#[test]
fn index_is_read_from_the_link() {
    assert_eq!(link_index("/nix/var/nix/profiles/system-69-link"), Ok(69));
    assert_eq!(link_index("/nix/var/nix/profiles/system-profiles/user-3-link"), Ok(3));
    assert_eq!(link_index("/nix/var/nix/profiles/system"), Err(BootError::NotAGeneration));
    assert_eq!(
        link_index("/nix/var/nix/profiles/system-99999999999999999999999-link"),
        Err(BootError::BadIndex)
    );
    assert_eq!(index_of_capture(None), Err(BootError::NotAGeneration));
    assert_eq!(index_of_capture(Some(String::from("12"))), Ok(12));
    assert_eq!(index_of_capture(Some(String::from("x"))), Err(BootError::BadIndex));
}

fn link(n: usize, hash: char) -> GenerationLink {
    let h: String = std::iter::repeat(hash).take(32).collect();
    GenerationLink {
        link: format!("/nix/var/nix/profiles/system-{}-link", n),
        root: format!("/nix/store/{}-nixos-system-{}", h, n),
        kernel: format!("/nix/store/{}-linux-5.12.9/bzImage", h),
        initrd: format!("/nix/store/{}-initrd-linux-5.12.9/initrd", h),
    }
}

#[test]
fn catalog_is_sorted_by_index() {
    let links = vec![link(10, 'c'), link(2, 'b'), link(1, 'a')];
    let gens = all_generations(None, false, &links).unwrap();
    assert_eq!(gens.iter().map(|g| g.idx).collect::<Vec<_>>(), vec![1, 2, 10]);
    assert_eq!(
        gens[0],
        Generation {
            idx: 1,
            profile: None,
            path: String::from("/nix/store/aaaaaaaaaaaaaaaaaaaaaaaaaaaaaaaa-nixos-system-1"),
            required_filenames: vec![
                String::from("aaaaaaaaaaaaaaaaaaaaaaaaaaaaaaaa-linux-5.12.9-bzImage.efi"),
                String::from("aaaaaaaaaaaaaaaaaaaaaaaaaaaaaaaa-initrd-linux-5.12.9-initrd.efi"),
                String::from("nixos-generation-1.conf"),
            ],
        }
    );

    let unified = all_generations(Some(String::from("user")), true, &links).unwrap();
    assert_eq!(
        unified[2].required_filenames,
        vec![
            String::from("cccccccccccccccccccccccccccccccc.efi"),
            String::from("nixos-user-generation-10.conf"),
        ]
    );
    assert_eq!(unified[2].profile, Some(String::from("user")));
    assert_eq!(all_generations(None, false, &vec![]), Ok(vec![]));
}

#[test]
fn catalog_fails_as_a_whole() {
    let mut broken = link(2, 'b');
    broken.kernel = String::from("/boot/vmlinuz");
    let links = vec![link(1, 'a'), broken, link(3, 'c')];
    assert_eq!(all_generations(None, false, &links), Err(BootError::NotAStorePath));
    // In unified mode the kernel is not looked at.
    assert_eq!(all_generations(None, true, &links).unwrap().len(), 3);

    let mut nameless = link(1, 'a');
    nameless.link = String::from("/nix/var/nix/profiles/system");
    assert_eq!(all_generations(None, false, &vec![nameless]), Err(BootError::NotAGeneration));
}

#[test]
fn test_create_dirs_to_file1() {
    let path = "/tmp/x/EFI/nixos/aaaaaaaaaaaaaaaaaaaaaaaaaaaaaaaa.efi";
    assert_eq!(
        create_dirs_to_file(path, false),
        Ok(vec![CopyOp::CreateDirs { path: String::from("/tmp/x/EFI/nixos") }])
    );
    assert_eq!(create_dirs_to_file(path, true), Ok(vec![]));
    assert_eq!(
        std::path::Path::new(path).parent().unwrap().display().to_string(),
        parent(path).unwrap()
    );
}

#[test]
fn test_create_dirs_to_file2() {
    let path = "/tmp/x/EFI/loader/entries/nixos-generation-1.conf";
    assert_eq!(
        create_dirs_to_file(path, false),
        Ok(vec![CopyOp::CreateDirs { path: String::from("/tmp/x/EFI/loader/entries") }])
    );
    assert_eq!(create_dirs_to_file(path, true), Ok(vec![]));
}

#[test]
fn path_without_parent_is_refused() {
    assert_eq!(
        create_dirs_to_file("", false),
        Err(BootError::Io { message: String::from("Path '' had no parent") })
    );
    assert_eq!(
        create_dirs_to_file("/", false),
        Err(BootError::Io { message: String::from("Path '/' had no parent") })
    );
    assert_eq!(create_dirs_to_file("/", true), Ok(vec![]));
    assert_eq!(parent("/a"), Some(String::from("/")));
    assert_eq!(parent("a"), Some(String::new()));
    assert_eq!(parent("a/b/c"), Some(String::from("a/b")));
    assert_eq!(parent(""), None);
    assert_eq!(parent("/"), None);
}

fn copy_of(source: &str, dest: &str, tmp_exists: bool, dest_exists: bool) -> Vec<CopyOp> {
    atomic_tmp_copy_file(source, dest, tmp_exists, dest_exists).unwrap()
}

#[test]
fn test_atomic_tmp_copy_file1() {
    let source = "/src/EFI/nixos/aaaaaaaaaaaaaaaaaaaaaaaaaaaaaaaa.efi";
    let dest = "/dst/EFI/nixos/aaaaaaaaaaaaaaaaaaaaaaaaaaaaaaaa.efi";
    let ops = copy_of(source, dest, false, false);
    assert_eq!(
        ops,
        vec![
            CopyOp::CreateDirs { path: String::from("/dst/EFI/nixos") },
            CopyOp::CopyFile {
                from: String::from(source),
                to: String::from("/dst/EFI/nixos/aaaaaaaaaaaaaaaaaaaaaaaaaaaaaaaa.efi.tmp")
            },
            CopyOp::Rename {
                from: String::from("/dst/EFI/nixos/aaaaaaaaaaaaaaaaaaaaaaaaaaaaaaaa.efi.tmp"),
                to: String::from(dest)
            },
        ]
    );
    assert_ne!(source, dest);
}

#[test]
fn test_atomic_tmp_copy_file2() {
    let source = "/src/EFI/loader/entries/nixos-generation-1.conf";
    let dest = "/dst/EFI/loader/entries/nixos-generation-1.conf";
    let ops = copy_of(source, dest, false, false);
    assert_eq!(ops.len(), 3);
    assert_eq!(
        ops.last(),
        Some(&CopyOp::Rename { from: tmp_path(dest), to: String::from(dest) })
    );
}

#[test]
fn test_atomic_tmp_copy_file3() {
    let source = "/src/EFI/loader/loader.conf";
    let dest = "/dst/EFI/loader/loader.conf";
    // The first copy finds nothing in place.
    let first = copy_of(source, dest, false, false);
    assert_eq!(first.len(), 3);
    // The second finds the destination, and a stale temporary copy.
    let second = copy_of(source, dest, true, true);
    assert_eq!(
        second,
        vec![
            CopyOp::RemoveFile { path: String::from("/dst/EFI/loader/loader.conf.tmp") },
            CopyOp::CopyFile {
                from: String::from(source),
                to: String::from("/dst/EFI/loader/loader.conf.tmp")
            },
            CopyOp::Rename {
                from: String::from("/dst/EFI/loader/loader.conf.tmp"),
                to: String::from(dest)
            },
        ]
    );
    assert_eq!(atomic_tmp_copy_file("a", "", false, false).unwrap_err().message(), "Path '' had no parent");
}

fn entry(rel: &str, is_dir: bool) -> TreeEntry {
    TreeEntry { rel: String::from(rel), is_dir, is_dest: false }
}

#[test]
fn tree_is_staged_whole_before_anything_is_renamed() {
    let entries = vec![
        entry("loader", true),
        entry("loader/loader.conf", false),
        entry("EFI", true),
        entry("EFI/nixos", true),
        entry("EFI/nixos/k.efi", false),
    ];
    let ops = atomic_tmp_copy("/gen", "/boot", false, &entries).unwrap();
    let s = |t: &str| String::from(t);
    assert_eq!(
        ops,
        vec![
            CopyOp::CreateDirs { path: s("/boot.tmp") },
            CopyOp::CreateDirs { path: s("/boot.tmp/loader") },
            CopyOp::CopyFile { from: s("/gen/loader/loader.conf"), to: s("/boot.tmp/loader/loader.conf") },
            CopyOp::CreateDirs { path: s("/boot.tmp/EFI") },
            CopyOp::CreateDirs { path: s("/boot.tmp/EFI/nixos") },
            CopyOp::CopyFile { from: s("/gen/EFI/nixos/k.efi"), to: s("/boot.tmp/EFI/nixos/k.efi") },
            CopyOp::CreateDirs { path: s("/boot/loader") },
            CopyOp::Rename { from: s("/boot.tmp/loader/loader.conf"), to: s("/boot/loader/loader.conf") },
            CopyOp::CreateDirs { path: s("/boot/EFI") },
            CopyOp::CreateDirs { path: s("/boot/EFI/nixos") },
            CopyOp::Rename { from: s("/boot.tmp/EFI/nixos/k.efi"), to: s("/boot/EFI/nixos/k.efi") },
            CopyOp::CopyPermissions { from: s("/gen/EFI/nixos"), to: s("/boot/EFI/nixos") },
            CopyOp::CopyPermissions { from: s("/gen/EFI"), to: s("/boot/EFI") },
            CopyOp::CopyPermissions { from: s("/gen/loader"), to: s("/boot/loader") },
            CopyOp::RemoveTree { path: s("/boot.tmp") },
        ]
    );
    let last_copy = ops.iter().rposition(|op| matches!(op, CopyOp::CopyFile { .. })).unwrap();
    let first_rename = ops.iter().position(|op| matches!(op, CopyOp::Rename { .. })).unwrap();
    assert!(last_copy < first_rename);
    // Nothing before the first rename names a path below the destination.
    for op in &ops[..first_rename] {
        match op {
            CopyOp::CopyFile { to, .. } => assert!(to.starts_with("/boot.tmp/")),
            CopyOp::CreateDirs { path } => {
                assert!(path.starts_with("/boot.tmp") || path.starts_with("/boot/"))
            }
            other => panic!("unexpected {:?}", other),
        }
    }
    assert_eq!(
        atomic_tmp_copy("/gen", "/boot", false, &vec![]).unwrap(),
        vec![CopyOp::CreateDirs { path: s("/boot.tmp") }, CopyOp::RemoveTree { path: s("/boot.tmp") }]
    );
    assert_eq!(child("/gen", "a/b"), "/gen/a/b");
}

#[test]
fn tree_is_never_copied_into_itself() {
    assert_eq!(
        atomic_tmp_copy("/boot", "/boot", true, &vec![entry("x", false)]),
        Err(BootError::CopyIntoItself { path: String::from("/boot") })
    );
    let mut alias = entry("mnt/boot", true);
    alias.is_dest = true;
    let entries = vec![entry("mnt", true), alias, entry("mnt/boot/x", false)];
    assert_eq!(
        atomic_tmp_copy("/gen", "/boot", false, &entries),
        Err(BootError::CopyIntoItself { path: String::from("/gen/mnt/boot") })
    );
    // A file is no directory to descend into.
    let mut file = entry("f", false);
    file.is_dest = true;
    assert!(atomic_tmp_copy("/gen", "/boot", false, &vec![file]).is_ok());
}
