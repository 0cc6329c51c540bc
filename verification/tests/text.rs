use boot_manager::checksum::checksum;
use boot_manager::decimal::{parse_usize, usize_to_string};
use boot_manager::error::BootError;
use boot_manager::text::{
    chars_of, clone_strings, contains_text, ends_with, join, join_path, replace_char, same_text,
    skip_chars, split, starts_with, strip_prefix, take_chars, trim,
};

#[test]
fn numbers_are_written_in_decimal() {
    assert_eq!(usize_to_string(0), "0");
    assert_eq!(usize_to_string(9), "9");
    assert_eq!(usize_to_string(10), "10");
    assert_eq!(usize_to_string(125), "125");
    assert_eq!(usize_to_string(usize::MAX), usize::MAX.to_string());
}

#[test]
fn numbers_are_read_as_the_standard_library_reads_them() {
    for text in
        ["0", "7", "+7", "007", "247", "18446744073709551615", "18446744073709551616", "", "+",
         "-1", "1a", " 1", "1 ", "++1", "٣", "99999999999999999999999999999", "+0", "1_000"]
    {
        assert_eq!(parse_usize(text), text.parse::<usize>().ok(), "{:?}", text);
    }
    for n in [0usize, 1, 9, 10, 99, 100, 4294967295, usize::MAX] {
        assert_eq!(parse_usize(&usize_to_string(n)), Some(n));
    }
}

#[test]
fn text_is_cut_and_joined() {
    for text in ["", " ", "a", "a b", "a  b", " a b ", "init=/x loglevel=4 quiet"] {
        let want: Vec<String> = text.split(' ').map(|s| s.to_string()).collect();
        assert_eq!(split(text, ' '), want, "{:?}", text);
        assert_eq!(join(&split(text, ' '), " "), text);
    }
    assert_eq!(join(&vec![], ", "), "");
    assert_eq!(join(&vec![String::from("a")], ", "), "a");
    assert_eq!(join(&vec![String::from("a"), String::new(), String::from("c")], ", "), "a, , c");
}

#[test]
fn white_space_is_trimmed_as_the_standard_library_trims_it() {
    for text in [
        "",
        " ",
        "abc",
        "  abc",
        "abc\n",
        "\t abc def \r\n",
        "\u{a0}x\u{3000}",
        "\u{2003}\u{85}",
        "a\u{200b}",
        "\u{1680}a b\u{2028}\u{2029}\u{202f}\u{205f}",
        "0123456789abcdef0123456789abcdef\n",
    ] {
        assert_eq!(trim(text), text.trim(), "{:?}", text);
    }
}

#[test]
fn paths_are_joined_as_the_standard_library_joins_them() {
    for (base, rel) in [
        ("/boot", "loader/loader.conf"),
        ("/boot/", "loader/loader.conf"),
        ("", "loader"),
        ("esp", "EFI/BOOT/BOOTX64.EFI"),
        ("/boot", "/abs"),
        ("/", "x"),
        ("a", ""),
    ] {
        assert_eq!(
            join_path(base, rel),
            std::path::Path::new(base).join(rel).display().to_string(),
            "{:?} {:?}",
            base,
            rel
        );
    }
}

#[test]
fn text_is_compared_and_taken_apart() {
    assert!(same_text("añb", "añb"));
    assert!(!same_text("a", "b"));
    assert!(!same_text("a", "ab"));
    assert!(starts_with("/nix/store/x", "/nix/store/"));
    assert!(!starts_with("/nix", "/nix/store/"));
    assert!(starts_with("x", ""));
    assert!(ends_with("a.efi", ".efi"));
    assert!(!ends_with("efi", ".efi"));
    assert_eq!(strip_prefix("/nix/store/x", "/nix/store/"), Some(String::from("x")));
    assert_eq!(strip_prefix("/nix/x", "/nix/store/"), None);
    assert_eq!(skip_chars("héllo", 2), "llo");
    assert_eq!(take_chars("héllo", 2), "hé");
    assert_eq!(replace_char("a/b/c", '/', '-'), "a-b-c");
    assert_eq!(replace_char("", '/', '-'), "");
    assert_eq!(chars_of("hé"), vec!['h', 'é']);
    let list = vec![String::from("a"), String::from("b")];
    assert_eq!(clone_strings(&list), list);
    assert!(contains_text(&list, "b"));
    assert!(!contains_text(&list, "c"));
}

#[test]
fn checksum_is_crc32_iscsi() {
    assert_eq!(checksum(b"123456789"), 0xe3069283);
    assert_eq!(checksum(b""), 0);
    assert_ne!(checksum(b"a"), checksum(b"b"));
    assert_eq!(checksum(b"same bytes"), checksum(b"same bytes"));
}

#[test]
fn errors_have_their_messages() {
    assert_eq!(
        BootError::NotAStorePath.message(),
        "provided path wasn't a Nix store path"
    );
    assert_eq!(BootError::NoEsp.message(), "No ESP(s) specified; exiting.");
    assert_eq!(
        BootError::CommandFailed {
            program: String::from("bootctl"),
            args: vec![String::from("install"), String::from("--path"), String::from("/boot")]
        }
        .message(),
        "failed to run `bootctl` with args `install --path /boot`"
    );
    assert_eq!(
        BootError::NotVerified { file: String::from("a.efi") }.message(),
        "a.efi could not be verified"
    );
    assert_eq!(
        BootError::NotStripped { file: String::from("/tmp/esp") }.message(),
        "failed to remove signature from '/tmp/esp'"
    );
    assert_eq!(BootError::Io { message: String::from("disk full") }.message(), "disk full");
    let e = BootError::CopyIntoItself { path: String::from("/boot") };
    assert_eq!(e.clone(), e);
    assert_eq!(e.message(), "cannot copy '/boot' into itself");
}
