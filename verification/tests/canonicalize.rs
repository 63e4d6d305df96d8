use install_dirs::canonical::CanonicalizationError;
use install_dirs::dirs::InstallDirs;

fn with_prefix(prefix: &str) -> InstallDirs {
    let mut dirs = InstallDirs::defaults();
    dirs.prefix = prefix.to_string();
    dirs
}

fn canonical(dirs: InstallDirs) -> InstallDirs {
    dirs.canonicalize().unwrap()
}

#[test]
fn defaults_are_the_customary_fragments() {
    let dirs = InstallDirs::defaults();
    assert_eq!(dirs.prefix, "/usr/local");
    assert_eq!(dirs.exec_prefix, "");
    assert_eq!(dirs.bin, "bin");
    assert_eq!(dirs.sbin, "sbin");
    assert_eq!(dirs.lib, "lib");
    assert_eq!(dirs.libexec, "libexec");
    assert_eq!(dirs.includedir, "include");
    assert_eq!(dirs.dataroot, "share");
    assert_eq!(dirs.data, "");
    assert_eq!(dirs.man, "man");
    assert_eq!(dirs.doc, "doc");
    assert_eq!(dirs.info, "info");
    assert_eq!(dirs.locale, "locale");
    assert_eq!(dirs.localstate, "var");
    assert_eq!(dirs.runstate, "run");
    assert_eq!(dirs.sharedstate, "com");
    assert_eq!(dirs.sysconf, "var");
}

#[test]
fn project_name_goes_into_doc() {
    let dirs = InstallDirs::with_project_name("foo");
    assert_eq!(dirs.doc, "doc/foo");
    let mut expected = InstallDirs::defaults();
    expected.doc = "doc/foo".to_string();
    assert_eq!(dirs, expected);
}

#[test]
fn project_doc_lies_below_dataroot() {
    let dirs = canonical(InstallDirs::with_project_name("foo"));
    assert_eq!(dirs.dataroot, "/usr/local/share");
    assert_eq!(dirs.doc, "/usr/local/share/doc/foo");
}

#[test]
fn rooted_project_name_replaces_doc() {
    let dirs = InstallDirs::with_project_name("/srv/foo");
    assert_eq!(dirs.doc, "/srv/foo");
    assert_eq!(canonical(dirs).doc, "/srv/foo");
}

#[test]
fn exec_target_becomes_exec_prefix() {
    let dirs = InstallDirs::with_exec_target("x86_64-linux-gnu");
    assert_eq!(dirs.exec_prefix, "x86_64-linux-gnu");
    let mut expected = InstallDirs::defaults();
    expected.exec_prefix = "x86_64-linux-gnu".to_string();
    assert_eq!(dirs, expected);
}

#[test]
fn exec_target_gets_a_tree_of_its_own() {
    let dirs = canonical(InstallDirs::with_exec_target("x86_64-linux-gnu"));
    assert_eq!(dirs.exec_prefix, "/usr/local/x86_64-linux-gnu");
    assert_eq!(dirs.bin, "/usr/local/x86_64-linux-gnu/bin");
    assert_eq!(dirs.sbin, "/usr/local/x86_64-linux-gnu/sbin");
    assert_eq!(dirs.lib, "/usr/local/x86_64-linux-gnu/lib");
    assert_eq!(dirs.libexec, "/usr/local/x86_64-linux-gnu/libexec");
    assert_eq!(dirs.includedir, "/usr/local/x86_64-linux-gnu/include");
    assert_eq!(dirs.dataroot, "/usr/local/share");
}

#[test]
fn project_name_and_target_together() {
    let dirs = InstallDirs::with_project_name_and_target("foo", "aarch64");
    let mut expected = InstallDirs::defaults();
    expected.exec_prefix = "aarch64".to_string();
    expected.doc = "doc/foo".to_string();
    assert_eq!(dirs, expected);
    let dirs = canonical(dirs);
    assert_eq!(dirs.bin, "/usr/local/aarch64/bin");
    assert_eq!(dirs.doc, "/usr/local/share/doc/foo");
}

#[test]
fn canonical_defaults() {
    let dirs = canonical(InstallDirs::defaults());
    assert_eq!(dirs.prefix, "/usr/local");
    assert_eq!(dirs.exec_prefix, "/usr/local/");
    assert_eq!(dirs.bin, "/usr/local/bin");
    assert_eq!(dirs.sbin, "/usr/local/sbin");
    assert_eq!(dirs.lib, "/usr/local/lib");
    assert_eq!(dirs.libexec, "/usr/local/libexec");
    assert_eq!(dirs.includedir, "/usr/local/include");
    assert_eq!(dirs.dataroot, "/usr/local/share");
    assert_eq!(dirs.data, "/usr/local/share/");
    assert_eq!(dirs.man, "/usr/local/share/man");
    assert_eq!(dirs.doc, "/usr/local/share/doc");
    assert_eq!(dirs.info, "/usr/local/share/info");
    assert_eq!(dirs.locale, "/usr/local/share/locale");
    assert_eq!(dirs.sharedstate, "/usr/local/com");
}

#[test]
fn default_prefix_lies_below_usr_so_state_goes_to_the_root() {
    let dirs = canonical(InstallDirs::defaults());
    assert_eq!(dirs.sysconf, "/var");
    assert_eq!(dirs.localstate, "/var");
}

#[test]
fn runstate_is_left_alone() {
    let dirs = canonical(InstallDirs::defaults());
    assert_eq!(dirs.runstate, "run");
    let mut dirs = InstallDirs::defaults();
    dirs.runstate = "/run".to_string();
    assert_eq!(canonical(dirs).runstate, "/run");
}

#[test]
fn every_resolved_directory_is_rooted() {
    for prefix in ["/", "/usr", "/usr/local", "/opt/pkg", "/home/me/.local", "//", "/srv/"] {
        let mut dirs = with_prefix(prefix);
        dirs.runstate = "/run".to_string();
        let dirs = canonical(dirs);
        for path in [
            &dirs.prefix,
            &dirs.exec_prefix,
            &dirs.bin,
            &dirs.sbin,
            &dirs.lib,
            &dirs.libexec,
            &dirs.includedir,
            &dirs.dataroot,
            &dirs.data,
            &dirs.man,
            &dirs.doc,
            &dirs.info,
            &dirs.locale,
            &dirs.localstate,
            &dirs.runstate,
            &dirs.sharedstate,
            &dirs.sysconf,
        ] {
            assert!(path.starts_with('/'), "{:?} for prefix {:?}", path, prefix);
        }
    }
}

#[test]
fn relative_prefix_is_refused() {
    for prefix in ["", "usr", "usr/local", "./usr", "../usr", "C:\\Program Files\\"] {
        let error: CanonicalizationError = with_prefix(prefix).canonicalize().unwrap_err();
        assert_eq!(error.prefix(), prefix);
    }
}

#[test]
fn error_message_names_the_prefix() {
    let error = with_prefix("usr/local").canonicalize().unwrap_err();
    assert_eq!(
        error.message(),
        "Failed to canonicalize Install Dirs (prefix usr/local is not an absolute path)"
    );
}

#[test]
fn canonicalizing_twice_changes_nothing() {
    let mut overridden = with_prefix("/opt/pkg");
    overridden.bin = "/bin".to_string();
    overridden.data = "../data".to_string();
    for dirs in [
        InstallDirs::defaults(),
        InstallDirs::with_project_name_and_target("foo", "aarch64"),
        with_prefix("/"),
        with_prefix("/usr"),
        with_prefix("/opt"),
        overridden,
    ] {
        let once = canonical(dirs);
        let twice = canonical(once.clone());
        assert_eq!(once, twice);
    }
}

#[test]
fn nothing_is_installed_in_the_root() {
    let dirs = canonical(with_prefix("/"));
    assert_eq!(dirs.exec_prefix, "/");
    assert_eq!(dirs.bin, "/usr/bin");
    assert_eq!(dirs.sbin, "/usr/sbin");
    assert_eq!(dirs.lib, "/usr/lib");
    assert_eq!(dirs.libexec, "/usr/libexec");
    assert_eq!(dirs.includedir, "/usr/include");
    assert_eq!(dirs.dataroot, "/usr/share");
    assert_eq!(dirs.man, "/usr/share/man");
    assert_eq!(dirs.sharedstate, "/usr/com");
    assert_eq!(dirs.sysconf, "/var");
    assert_eq!(dirs.localstate, "/var");
}

#[test]
fn exec_target_below_the_root_is_kept() {
    let mut dirs = with_prefix("/");
    dirs.exec_prefix = "x86_64".to_string();
    let dirs = canonical(dirs);
    assert_eq!(dirs.exec_prefix, "/x86_64");
    assert_eq!(dirs.bin, "/x86_64/bin");
    assert_eq!(dirs.dataroot, "/usr/share");
}

#[test]
fn rooted_exec_prefix_at_the_root_is_replaced_too() {
    let mut dirs = with_prefix("/srv");
    dirs.exec_prefix = "/".to_string();
    let dirs = canonical(dirs);
    assert_eq!(dirs.exec_prefix, "/");
    assert_eq!(dirs.bin, "/usr/bin");
    assert_eq!(dirs.dataroot, "/srv/share");
}

#[test]
fn usr_prefix_keeps_state_outside_usr() {
    let dirs = canonical(with_prefix("/usr"));
    assert_eq!(dirs.bin, "/usr/bin");
    assert_eq!(dirs.dataroot, "/usr/share");
    assert_eq!(dirs.sharedstate, "/usr/com");
    assert_eq!(dirs.sysconf, "/var");
    assert_eq!(dirs.localstate, "/var");
    let mut dirs = with_prefix("/usr");
    dirs.sysconf = "etc".to_string();
    assert_eq!(canonical(dirs).sysconf, "/etc");
}

#[test]
fn prefix_that_only_looks_like_usr_keeps_its_state() {
    let dirs = canonical(with_prefix("/usrlocal"));
    assert_eq!(dirs.sysconf, "/usrlocal/var");
    assert_eq!(dirs.localstate, "/usrlocal/var");
}

#[test]
fn plain_prefix_holds_its_state() {
    let dirs = canonical(with_prefix("/home/me/.local"));
    assert_eq!(dirs.bin, "/home/me/.local/bin");
    assert_eq!(dirs.sysconf, "/home/me/.local/var");
    assert_eq!(dirs.localstate, "/home/me/.local/var");
    assert_eq!(dirs.sharedstate, "/home/me/.local/com");
}

#[test]
fn opt_prefix_nests_its_state_below_the_root() {
    let dirs = canonical(with_prefix("/opt/pkg"));
    assert_eq!(dirs.bin, "/opt/pkg/bin");
    assert_eq!(dirs.sysconf, "/var/opt/pkg");
    assert_eq!(dirs.localstate, "/var/opt/pkg");
    assert_eq!(dirs.sharedstate, "/opt/pkg/com");
    let dirs = canonical(with_prefix("/opt"));
    assert_eq!(dirs.sysconf, "/var/opt");
    assert_eq!(dirs.localstate, "/var/opt");
}

#[test]
fn opt_prefix_nests_each_state_directory_by_its_own_fragment() {
    let mut dirs = with_prefix("/opt/foo");
    dirs.sysconf = "etc".to_string();
    let dirs = canonical(dirs);
    assert_eq!(dirs.sysconf, "/etc/opt/foo");
    assert_eq!(dirs.localstate, "/var/opt/foo");
}

#[test]
fn opt_prefix_leaves_rooted_state_directories() {
    let mut dirs = with_prefix("/opt/foo");
    dirs.sysconf = "/etc/foo".to_string();
    dirs.localstate = "/srv/foo".to_string();
    let dirs = canonical(dirs);
    assert_eq!(dirs.sysconf, "/etc/foo");
    assert_eq!(dirs.localstate, "/srv/foo");
}

#[test]
fn prefix_that_only_looks_like_opt_holds_its_state() {
    let dirs = canonical(with_prefix("/option"));
    assert_eq!(dirs.sysconf, "/option/var");
    assert_eq!(dirs.localstate, "/option/var");
}

#[test]
fn rooted_overrides_stay() {
    let mut dirs = with_prefix("/opt/pkg");
    dirs.exec_prefix = "/opt/pkg/arch".to_string();
    dirs.bin = "/bin".to_string();
    dirs.dataroot = "/srv/share".to_string();
    dirs.sysconf = "/etc/pkg".to_string();
    dirs.localstate = "/var/pkg".to_string();
    dirs.sharedstate = "/com".to_string();
    let dirs = canonical(dirs);
    assert_eq!(dirs.exec_prefix, "/opt/pkg/arch");
    assert_eq!(dirs.bin, "/bin");
    assert_eq!(dirs.sbin, "/opt/pkg/arch/sbin");
    assert_eq!(dirs.dataroot, "/srv/share");
    assert_eq!(dirs.man, "/srv/share/man");
    assert_eq!(dirs.sysconf, "/etc/pkg");
    assert_eq!(dirs.localstate, "/var/pkg");
    assert_eq!(dirs.sharedstate, "/com");
}

#[test]
fn shared_state_is_resolved_against_the_prefix() {
    let mut dirs = with_prefix("/usr");
    dirs.sharedstate = "shared".to_string();
    dirs.localstate = "/var/local".to_string();
    assert_eq!(canonical(dirs).sharedstate, "/usr/shared");
    let mut dirs = with_prefix("/");
    dirs.sharedstate = "".to_string();
    assert_eq!(canonical(dirs).sharedstate, "/usr/");
}
