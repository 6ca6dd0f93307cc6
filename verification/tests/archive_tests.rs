use fast_rustup::archive::bytes_eq;
use fast_rustup::archive::is_manifest_name;
use fast_rustup::archive::plan_entry;
use fast_rustup::archive::split_path;
use fast_rustup::archive::EntryAction;
use fast_rustup::archive::EntryKind;

fn segs(names: &[&str]) -> Vec<Vec<u8>> {
    names.iter().map(|s| s.as_bytes().to_vec()).collect()
}

#[test]
fn split_plain_path() {
    assert_eq!(
        split_path(b"cargo-nightly-x86_64/cargo/bin/cargo"),
        segs(&["cargo-nightly-x86_64", "cargo", "bin", "cargo"])
    );
}

#[test]
fn split_empty_path_has_no_segments() {
    assert_eq!(split_path(b""), Vec::<Vec<u8>>::new());
}

#[test]
fn split_drops_empty_and_dot_segments() {
    assert_eq!(split_path(b"a//b/./c/"), segs(&["a", "b", "c"]));
    assert_eq!(split_path(b"a/b/."), segs(&["a", "b"]));
    assert_eq!(split_path(b"a/.b/c."), segs(&["a", ".b", "c."]));
}

#[test]
fn split_keeps_root_as_first_segment() {
    assert_eq!(split_path(b"/cargo/bin"), segs(&["/", "cargo", "bin"]));
    assert_eq!(split_path(b"/"), segs(&["/"]));
    assert_eq!(split_path(b"//"), segs(&["/"]));
}

#[test]
fn split_keeps_leading_dot_as_first_segment() {
    assert_eq!(split_path(b"./top/cargo"), segs(&[".", "top", "cargo"]));
    assert_eq!(split_path(b"."), segs(&["."]));
    assert_eq!(split_path(b".hidden/x"), segs(&[".hidden", "x"]));
    assert_eq!(split_path(b"/./x"), segs(&["/", "x"]));
}

#[test]
fn split_keeps_parent_segments() {
    assert_eq!(split_path(b"a/../b"), segs(&["a", "..", "b"]));
    assert_eq!(split_path(b".."), segs(&[".."]));
}

#[test]
fn split_agrees_with_std_components() {
    let paths: [&str; 12] = [
        "",
        ".",
        "/",
        "a",
        "a/b",
        "./a/b",
        "/a/b",
        "a//b/./c/",
        "a/../b",
        "top/cargo/manifest.in/.",
        "..",
        ".//x",
    ];
    for path in paths {
        let expected: Vec<Vec<u8>> = std::path::Path::new(path)
            .components()
            .map(|c| c.as_os_str().to_str().unwrap().as_bytes().to_vec())
            .collect();
        if std::path::MAIN_SEPARATOR == '/' {
            assert_eq!(split_path(path.as_bytes()), expected, "{:?}", path);
        }
    }
}

#[test]
fn file_in_subtree_is_unpacked() {
    assert_eq!(
        plan_entry(b"cargo-nightly/cargo/bin/cargo", EntryKind::File, "cargo"),
        EntryAction::Unpack(segs(&["bin", "cargo"]))
    );
}

#[test]
fn directory_in_subtree_is_created() {
    assert_eq!(
        plan_entry(b"cargo-nightly/cargo/bin/", EntryKind::Directory, "cargo"),
        EntryAction::CreateDir(segs(&["bin"]))
    );
}

#[test]
fn subtree_itself_goes_to_the_root() {
    assert_eq!(
        plan_entry(b"cargo-nightly/cargo/", EntryKind::Directory, "cargo"),
        EntryAction::CreateDir(Vec::new())
    );
}

#[test]
fn entry_of_other_subtree_is_skipped() {
    assert_eq!(
        plan_entry(b"rust-nightly/rustc/bin/rustc", EntryKind::File, "cargo"),
        EntryAction::Skip
    );
    assert_eq!(
        plan_entry(b"rust-nightly/rustc/lib", EntryKind::Directory, "cargo"),
        EntryAction::Skip
    );
    assert_eq!(
        plan_entry(b"rust-nightly/cargo-extra/bin", EntryKind::File, "cargo"),
        EntryAction::Skip
    );
    assert_eq!(plan_entry(b"rust-nightly/car/go", EntryKind::File, "cargo"), EntryAction::Skip);
}

#[test]
fn entry_without_second_segment_is_skipped() {
    assert_eq!(plan_entry(b"", EntryKind::File, "cargo"), EntryAction::Skip);
    assert_eq!(plan_entry(b"cargo", EntryKind::File, "cargo"), EntryAction::Skip);
    assert_eq!(plan_entry(b"cargo/", EntryKind::Directory, "cargo"), EntryAction::Skip);
    assert_eq!(plan_entry(b"top/version", EntryKind::File, "cargo"), EntryAction::Skip);
}

#[test]
fn first_segment_is_not_compared() {
    assert_eq!(
        plan_entry(b"cargo/rustc/x", EntryKind::File, "cargo"),
        EntryAction::Skip
    );
    assert_eq!(
        plan_entry(b"anything/cargo/x", EntryKind::File, "cargo"),
        EntryAction::Unpack(segs(&["x"]))
    );
}

#[test]
fn leading_dot_counts_as_first_segment() {
    assert_eq!(plan_entry(b"./top/cargo/x", EntryKind::File, "cargo"), EntryAction::Skip);
    assert_eq!(
        plan_entry(b"./cargo/x", EntryKind::File, "cargo"),
        EntryAction::Unpack(segs(&["x"]))
    );
}

#[test]
fn manifest_at_subtree_root_is_skipped() {
    assert_eq!(
        plan_entry(b"cargo-nightly/cargo/manifest.in", EntryKind::File, "cargo"),
        EntryAction::Skip
    );
    assert_eq!(
        plan_entry(b"cargo-nightly/cargo/manifest.in/", EntryKind::Directory, "cargo"),
        EntryAction::Skip
    );
    assert_eq!(
        plan_entry(b"cargo-nightly/cargo/./manifest.in", EntryKind::File, "cargo"),
        EntryAction::Skip
    );
}

#[test]
fn manifest_elsewhere_is_written() {
    assert_eq!(
        plan_entry(b"cargo-nightly/cargo/lib/manifest.in", EntryKind::File, "cargo"),
        EntryAction::Unpack(segs(&["lib", "manifest.in"]))
    );
    assert_eq!(
        plan_entry(b"cargo-nightly/cargo/manifest.in/x", EntryKind::File, "cargo"),
        EntryAction::Unpack(segs(&["manifest.in", "x"]))
    );
    assert_eq!(
        plan_entry(b"cargo-nightly/cargo/manifest.inn", EntryKind::File, "cargo"),
        EntryAction::Unpack(segs(&["manifest.inn"]))
    );
    assert_eq!(
        plan_entry(b"cargo-nightly/rustc/manifest.in", EntryKind::File, "cargo"),
        EntryAction::Skip
    );
}

#[test]
fn subtree_with_target_in_its_name() {
    assert_eq!(
        plan_entry(
            b"rust-std-nightly-x/rust-std-x86_64-unknown-linux-gnu/lib/rustlib/a.rlib",
            EntryKind::File,
            "rust-std-x86_64-unknown-linux-gnu"
        ),
        EntryAction::Unpack(segs(&["lib", "rustlib", "a.rlib"]))
    );
}

#[test]
fn path_need_not_be_text() {
    let path: [u8; 9] = [b't', b'/', b'c', b'/', 0xff, 0xfe, b'/', b'x', 0x80];
    assert_eq!(
        plan_entry(&path, EntryKind::File, "c"),
        EntryAction::Unpack(vec![vec![0xff, 0xfe], vec![b'x', 0x80]])
    );
}

#[test]
fn manifest_name_is_recognised() {
    assert!(is_manifest_name(b"manifest.in"));
    assert!(!is_manifest_name(b"manifest.i"));
    assert!(!is_manifest_name(b"manifest.inn"));
    assert!(!is_manifest_name(b"Manifest.in"));
    assert!(!is_manifest_name(b"manifest-in"));
    assert!(!is_manifest_name(b""));
}

#[test]
fn byte_strings_compare_by_content() {
    assert!(bytes_eq(b"", b""));
    assert!(bytes_eq(b"cargo", b"cargo"));
    assert!(!bytes_eq(b"cargo", b"cargp"));
    assert!(!bytes_eq(b"cargo", b"carg"));
    assert!(!bytes_eq(b"", b"c"));
}
