use install_dirs::path::is_below_dir;
use install_dirs::path::is_root_dir;
use install_dirs::path::is_rooted;
use install_dirs::path::join_paths;
use install_dirs::path::leading_segment;
use install_dirs::path::same_text;
use std::path::Path;
use std::path::PathBuf;

fn samples() -> Vec<&'static str> {
    vec![
        "", "/", "//", "/.", "/./", "/./.", "/..", ".", "./", "..", "a", "a/", "a/b", "/a", "/a/",
        "/a/b", "usr", "/usr", "/usr/", "//usr", "/./usr", "/usr/local", "/usr/local/", "/usrlocal",
        "/usr.", "/.usr", "/us", "/opt", "/opt/pkg", "/./opt//pkg/", "/option", "opt", "/var/opt",
        "bin", "./bin", "../bin", "doc/foo", "/ü", "ü/é", "/usr/ü", "x86_64-linux-gnu",
    ]
}

#[test]
fn rooted_paths_begin_with_a_separator() {
    assert!(is_rooted("/"));
    assert!(is_rooted("/usr/local"));
    assert!(is_rooted("//"));
    assert!(!is_rooted(""));
    assert!(!is_rooted("usr"));
    assert!(!is_rooted("./usr"));
    assert!(!is_rooted("ü/"));
}

#[test]
fn rooted_agrees_with_std() {
    for p in samples() {
        assert_eq!(is_rooted(p), Path::new(p).has_root(), "{:?}", p);
    }
}

#[test]
fn join_adds_one_separator() {
    assert_eq!(join_paths("/usr", "bin"), "/usr/bin");
    assert_eq!(join_paths("/usr/", "bin"), "/usr/bin");
    assert_eq!(join_paths("/", "bin"), "/bin");
    assert_eq!(join_paths("", "bin"), "bin");
    assert_eq!(join_paths("doc", "foo"), "doc/foo");
}

#[test]
fn join_of_an_empty_fragment_ends_in_a_separator() {
    assert_eq!(join_paths("/usr/local", ""), "/usr/local/");
    assert_eq!(join_paths("/usr/local/", ""), "/usr/local/");
    assert_eq!(join_paths("/", ""), "/");
    assert_eq!(join_paths("", ""), "");
}

#[test]
fn join_of_a_rooted_fragment_replaces_the_base() {
    assert_eq!(join_paths("/usr", "/etc"), "/etc");
    assert_eq!(join_paths("", "/"), "/");
    assert_eq!(join_paths("/var/lib", "/opt/pkg"), "/opt/pkg");
}

#[test]
fn join_agrees_with_std() {
    for base in samples() {
        for frag in samples() {
            let mut expected = PathBuf::from(base);
            expected.push(frag);
            assert_eq!(
                join_paths(base, frag),
                expected.to_str().unwrap(),
                "{:?} {:?}",
                base,
                frag
            );
        }
    }
}

#[test]
fn root_is_told_apart() {
    assert!(is_root_dir("/"));
    assert!(is_root_dir("//"));
    assert!(is_root_dir("/."));
    assert!(is_root_dir("/./"));
    assert!(!is_root_dir(""));
    assert!(!is_root_dir("."));
    assert!(!is_root_dir("/.."));
    assert!(!is_root_dir("/usr"));
    assert!(!is_root_dir("/ü"));
}

#[test]
fn root_agrees_with_std() {
    for p in samples() {
        assert_eq!(is_root_dir(p), Path::new(p) == Path::new("/"), "{:?}", p);
    }
}

#[test]
fn below_dir_looks_at_whole_segments() {
    assert!(is_below_dir("/usr", "usr"));
    assert!(is_below_dir("/usr/", "usr"));
    assert!(is_below_dir("/usr/local", "usr"));
    assert!(is_below_dir("//usr", "usr"));
    assert!(is_below_dir("/./usr/lib", "usr"));
    assert!(!is_below_dir("/usrlocal", "usr"));
    assert!(!is_below_dir("/us", "usr"));
    assert!(!is_below_dir("usr", "usr"));
    assert!(!is_below_dir("/var/usr", "usr"));
    assert!(!is_below_dir("/", "usr"));
    assert!(!is_below_dir("/usr", ""));
    assert!(!is_below_dir("/usr/local", "usr/local"));
}

#[test]
fn below_dir_agrees_with_std() {
    for p in samples() {
        assert_eq!(is_below_dir(p, "usr"), Path::new(p).starts_with("/usr"), "{:?}", p);
        assert_eq!(is_below_dir(p, "opt"), Path::new(p).starts_with("/opt"), "{:?}", p);
        assert_eq!(is_below_dir(p, "ü"), Path::new(p).starts_with("/ü"), "{:?}", p);
    }
}

#[test]
fn leading_segment_skips_what_names_nothing() {
    assert_eq!(leading_segment("/usr/local"), (1, 4));
    assert_eq!(leading_segment("/usr/usr"), (1, 4));
    assert_eq!(leading_segment("a/a/a"), (0, 1));
    assert_eq!(leading_segment("usr"), (0, 3));
    assert_eq!(leading_segment("/.//./opt/pkg"), (6, 9));
    assert_eq!(leading_segment("/../x"), (1, 3));
    assert_eq!(leading_segment("/ü/x"), (1, 2));
    assert_eq!(leading_segment(""), (0, 0));
    assert_eq!(leading_segment("/"), (1, 1));
    assert_eq!(leading_segment("/./."), (4, 4));
    assert_eq!(leading_segment("//"), (2, 2));
}

#[test]
fn same_text_compares_every_character() {
    assert!(same_text("", ""));
    assert!(same_text("bindir", "bindir"));
    assert!(!same_text("bindir", "libdir"));
    assert!(!same_text("bindir", "bindi"));
    assert!(!same_text("bindi", "bindir"));
    assert!(same_text("ü", "ü"));
    assert!(!same_text("ü", "u"));
}
