//! Canonicalization: every fragment of a layout resolved to a rooted path.
//!
//! The directories are resolved in a fixed order. Those for programs and
//! libraries go below `exec_prefix`, those for data below `dataroot`, and
//! those for configuration and state below a prefix of their own. Three
//! customs of packaging are followed: nothing is installed directly in the
//! root of the file system, a layout below `/usr` keeps its state outside
//! `/usr`, and a layout below `/opt` keeps its state in a tree of its own
//! below the state directory of the root, as in `/var/opt/pkg`.

use crate::dirs::default_dirs;
use crate::dirs::DirsView;
use crate::dirs::InstallDirs;
use crate::path::begins_with_dir;
use crate::path::has_root;
use crate::path::is_below_dir;
use crate::path::is_root;
use crate::path::is_root_dir;
use crate::path::is_rooted;
use crate::path::join;
use crate::path::join_paths;
use crate::path::lemma_dir_of_root;
use crate::path::lemma_join_keeps_root;
use crate::path::lemma_join_stays_below;
use crate::path::lemma_root_has_no_segments;
use crate::path::lemma_segments_before_rooted;
use crate::path::lemma_segments_of_join;
use crate::path::segments;
use crate::path::sep;
use vstd::prelude::*;
use vstd::string::*;

verus! {

/// The error of canonicalizing a layout whose prefix is not rooted.
#[derive(Debug)]
pub struct CanonicalizationError {
    prefix: String,
}

impl View for CanonicalizationError {
    type V = Seq<char>;

    /// The prefix that was refused.
    closed spec fn view(&self) -> Seq<char> {
        self.prefix@
    }
}

impl CanonicalizationError {
    /// The prefix that was refused.
    pub fn prefix(&self) -> (r: &str)
        ensures
            r@ == self@,
    {
        self.prefix.as_str()
    }

    /// The error in words.
    pub fn message(&self) -> (r: String)
        ensures
            r@ == "Failed to canonicalize Install Dirs (prefix "@ + self@
                + " is not an absolute path)"@,
    {
        let mut text = String::from_str("Failed to canonicalize Install Dirs (prefix ");
        text.append(self.prefix.as_str());
        text.append(" is not an absolute path)");
        text
    }
}

/// The directory that files are installed below where `p` is asked for:
/// `/usr` in place of the root of the file system, else `p` itself.
pub open spec fn install_root(p: Seq<char>) -> Seq<char> {
    if is_root(p) {
        "/usr"@
    } else {
        p
    }
}

/// The prefix for configuration and state: the root of the file system where
/// `prefix` is `/usr` or lies below it, else `prefix` itself.
pub open spec fn state_prefix(prefix: Seq<char>) -> Seq<char> {
    if begins_with_dir(prefix, "usr"@) {
        "/"@
    } else {
        prefix
    }
}

/// Where the configuration or state directory `frag` lies for the state
/// prefix `sp`.
///
/// A rooted `frag` stays. Otherwise `frag` is pushed onto `sp`, unless `sp`
/// is `/opt` or lies below it: then `frag` is pushed onto the root, and the
/// text of `sp` follows, so that the tree of `sp` is nested in `frag` of the
/// root.
pub open spec fn state_dir(sp: Seq<char>, frag: Seq<char>) -> Seq<char> {
    if has_root(frag) {
        frag
    } else if begins_with_dir(sp, "opt"@) {
        join("/"@, frag) + sp
    } else {
        join(sp, frag)
    }
}

/// The canonical form of the layout `d`.
///
/// `runstate` is not resolved: it stays as it is.
pub open spec fn canonical(d: DirsView) -> DirsView {
    let exec_prefix = join(d.prefix, d.exec_prefix);
    let exec_root = install_root(exec_prefix);
    let data_source = install_root(d.prefix);
    let dataroot = join(data_source, d.dataroot);
    let sp = state_prefix(d.prefix);
    DirsView {
        prefix: d.prefix,
        exec_prefix,
        bin: join(exec_root, d.bin),
        sbin: join(exec_root, d.sbin),
        lib: join(exec_root, d.lib),
        libexec: join(exec_root, d.libexec),
        includedir: join(exec_root, d.includedir),
        dataroot,
        data: join(dataroot, d.data),
        man: join(dataroot, d.man),
        doc: join(dataroot, d.doc),
        info: join(dataroot, d.info),
        locale: join(dataroot, d.locale),
        localstate: state_dir(sp, d.localstate),
        runstate: d.runstate,
        sharedstate: join(data_source, d.sharedstate),
        sysconf: state_dir(sp, d.sysconf),
    }
}

/// Every directory of `d` that canonicalization resolves is rooted: all of
/// them but `runstate`.
pub open spec fn resolved(d: DirsView) -> bool {
    &&& has_root(d.prefix)
    &&& has_root(d.exec_prefix)
    &&& has_root(d.bin)
    &&& has_root(d.sbin)
    &&& has_root(d.lib)
    &&& has_root(d.libexec)
    &&& has_root(d.includedir)
    &&& has_root(d.dataroot)
    &&& has_root(d.data)
    &&& has_root(d.man)
    &&& has_root(d.doc)
    &&& has_root(d.info)
    &&& has_root(d.locale)
    &&& has_root(d.localstate)
    &&& has_root(d.sharedstate)
    &&& has_root(d.sysconf)
}

/// Every directory of `d` is rooted.
pub open spec fn all_rooted(d: DirsView) -> bool {
    resolved(d) && has_root(d.runstate)
}

/// Resolves the fragment `frag` against `base`: a rooted one stays, any other
/// is pushed onto `base`.
fn resolve(base: &str, frag: String) -> (r: String)
    ensures
        r@ == join(base@, frag@),
{
    if is_rooted(frag.as_str()) {
        frag
    } else {
        join_paths(base, frag.as_str())
    }
}

/// The directory that files are installed below where `p` is asked for.
fn install_root_of(p: &str) -> (r: String)
    ensures
        r@ == install_root(p@),
{
    if is_root_dir(p) {
        String::from_str("/usr")
    } else {
        String::from_str(p)
    }
}

/// The prefix for configuration and state that belongs to `prefix`.
fn state_prefix_of(prefix: &str) -> (r: String)
    ensures
        r@ == state_prefix(prefix@),
{
    if is_below_dir(prefix, "usr") {
        String::from_str("/")
    } else {
        String::from_str(prefix)
    }
}

/// Resolves the configuration or state directory `frag` for the state prefix
/// `sp`.
fn resolve_state(sp: &str, frag: String) -> (r: String)
    ensures
        r@ == state_dir(sp@, frag@),
{
    if is_rooted(frag.as_str()) {
        frag
    } else if is_below_dir(sp, "opt") {
        let mut nested = join_paths("/", frag.as_str());
        nested.append(sp);
        nested
    } else {
        join_paths(sp, frag.as_str())
    }
}

impl InstallDirs {
    /// Resolves every directory but `runstate` to a rooted path.
    ///
    /// Fails if and only if `prefix` is not rooted, and the error then
    /// carries that prefix.
    pub fn canonicalize(self) -> (r: Result<InstallDirs, CanonicalizationError>)
        ensures
            match r {
                Ok(dirs) => {
                    &&& has_root(self@.prefix)
                    &&& dirs@ == canonical(self@)
                    &&& resolved(dirs@)
                    &&& has_root(self@.runstate) ==> all_rooted(dirs@)
                },
                Err(e) => !has_root(self@.prefix) && e@ == self@.prefix,
            },
    {
        if !is_rooted(self.prefix.as_str()) {
            return Err(CanonicalizationError { prefix: self.prefix });
        }
        proof {
            lemma_canonical_resolved(self@);
        }
        let exec_prefix = resolve(self.prefix.as_str(), self.exec_prefix);
        let exec_root = install_root_of(exec_prefix.as_str());
        let data_source = install_root_of(self.prefix.as_str());
        let sp = state_prefix_of(self.prefix.as_str());

        let bin = resolve(exec_root.as_str(), self.bin);
        let sbin = resolve(exec_root.as_str(), self.sbin);
        let lib = resolve(exec_root.as_str(), self.lib);
        let libexec = resolve(exec_root.as_str(), self.libexec);
        let includedir = resolve(exec_root.as_str(), self.includedir);

        let dataroot = resolve(data_source.as_str(), self.dataroot);
        let data = resolve(dataroot.as_str(), self.data);
        let man = resolve(dataroot.as_str(), self.man);
        let info = resolve(dataroot.as_str(), self.info);
        let doc = resolve(dataroot.as_str(), self.doc);
        let locale = resolve(dataroot.as_str(), self.locale);

        let mut sharedstate = resolve(data_source.as_str(), self.sharedstate);
        let sysconf = resolve_state(sp.as_str(), self.sysconf);
        let localstate = resolve_state(sp.as_str(), self.localstate);
        // The data prefix is rooted, so this second resolution finds nothing to do.
        if !is_rooted(sharedstate.as_str()) {
            sharedstate = join_paths(localstate.as_str(), sharedstate.as_str());
        }
        Ok(
            InstallDirs {
                prefix: self.prefix,
                exec_prefix,
                bin,
                sbin,
                lib,
                libexec,
                includedir,
                dataroot,
                data,
                man,
                doc,
                info,
                locale,
                localstate,
                runstate: self.runstate,
                sharedstate,
                sysconf,
            },
        )
    }
}

/// The directory that stands in for the root, and the root itself, are
/// rooted.
pub proof fn lemma_fixed_dirs_rooted()
    ensures
        has_root("/usr"@),
        has_root("/"@),
{
    reveal_strlit("/usr");
    reveal_strlit("/");
}

/// The directory that files are installed below is rooted where the
/// directory asked for is.
pub proof fn lemma_install_root_rooted(p: Seq<char>)
    requires
        has_root(p),
    ensures
        has_root(install_root(p)),
{
    lemma_fixed_dirs_rooted();
}

/// A configuration or state directory is rooted once resolved for a rooted
/// state prefix.
pub proof fn lemma_state_dir_rooted(sp: Seq<char>, frag: Seq<char>)
    requires
        has_root(sp),
    ensures
        has_root(state_dir(sp, frag)),
{
    lemma_fixed_dirs_rooted();
    lemma_join_keeps_root("/"@, frag);
    lemma_join_keeps_root(sp, frag);
}

/// Canonicalization of a layout with a rooted prefix leaves every directory
/// but `runstate` rooted, and `runstate` as it was.
pub proof fn lemma_canonical_resolved(d: DirsView)
    requires
        has_root(d.prefix),
    ensures
        resolved(canonical(d)),
        canonical(d).runstate == d.runstate,
        has_root(d.runstate) ==> all_rooted(canonical(d)),
{
    let exec_prefix = join(d.prefix, d.exec_prefix);
    let exec_root = install_root(exec_prefix);
    let data_source = install_root(d.prefix);
    let dataroot = join(data_source, d.dataroot);
    let sp = state_prefix(d.prefix);
    lemma_fixed_dirs_rooted();
    lemma_join_keeps_root(d.prefix, d.exec_prefix);
    lemma_install_root_rooted(exec_prefix);
    lemma_install_root_rooted(d.prefix);
    lemma_join_keeps_root(exec_root, d.bin);
    lemma_join_keeps_root(exec_root, d.sbin);
    lemma_join_keeps_root(exec_root, d.lib);
    lemma_join_keeps_root(exec_root, d.libexec);
    lemma_join_keeps_root(exec_root, d.includedir);
    lemma_join_keeps_root(data_source, d.dataroot);
    lemma_join_keeps_root(dataroot, d.data);
    lemma_join_keeps_root(dataroot, d.man);
    lemma_join_keeps_root(dataroot, d.doc);
    lemma_join_keeps_root(dataroot, d.info);
    lemma_join_keeps_root(dataroot, d.locale);
    lemma_join_keeps_root(data_source, d.sharedstate);
    lemma_state_dir_rooted(sp, d.localstate);
    lemma_state_dir_rooted(sp, d.sysconf);
}

/// Canonicalization changes nothing in a layout whose directories are
/// resolved already.
pub proof fn lemma_canonical_keeps_resolved(d: DirsView)
    requires
        resolved(d),
    ensures
        canonical(d) == d,
{
}

/// Canonicalizing a second time changes nothing.
pub proof fn lemma_canonical_idempotent(d: DirsView)
    requires
        has_root(d.prefix),
    ensures
        has_root(canonical(d).prefix),
        canonical(canonical(d)) == canonical(d),
{
    lemma_canonical_resolved(d);
    lemma_canonical_keeps_resolved(canonical(d));
}

/// `/usr` is a directory of the root, and `/` is the root.
pub proof fn lemma_fixed_dirs()
    ensures
        begins_with_dir("/usr"@, "usr"@),
        segments("/usr"@) =~= seq!["usr"@],
        is_root("/"@),
{
    reveal_strlit("/usr");
    reveal_strlit("usr");
    reveal_strlit("/");
    assert("/usr"@ =~= seq![sep()] + "usr"@);
    assert("/"@ =~= seq![sep()]);
    lemma_dir_of_root("usr"@);
    lemma_root_has_no_segments();
}

/// With the root of the file system as prefix, and an `exec_prefix` that is
/// not rooted and names nothing, programs are not installed in the root: a
/// `bin` that is not rooted is pushed onto `/usr`, and lies below it.
pub proof fn lemma_root_prefix_installs_below_usr(d: DirsView)
    requires
        is_root(d.prefix),
        !has_root(d.exec_prefix),
        segments(d.exec_prefix).len() == 0,
        !has_root(d.bin),
    ensures
        canonical(d).bin == join("/usr"@, d.bin),
        begins_with_dir(canonical(d).bin, "usr"@),
{
    lemma_segments_of_join(d.prefix, d.exec_prefix);
    lemma_join_keeps_root(d.prefix, d.exec_prefix);
    assert(is_root(join(d.prefix, d.exec_prefix)));
    lemma_fixed_dirs();
    lemma_join_stays_below("/usr"@, d.bin, "usr"@);
}

/// A layout at `/usr` or below it keeps its configuration and its local state
/// outside its prefix: a fragment of either that is not rooted is pushed onto
/// the root of the file system. What results lies below `/usr` only where the
/// fragment's own first segment is `usr`.
pub proof fn lemma_usr_prefix_keeps_state_at_root(d: DirsView)
    requires
        begins_with_dir(d.prefix, "usr"@),
    ensures
        !has_root(d.sysconf) ==> {
            &&& canonical(d).sysconf == "/"@ + d.sysconf
            &&& segments(canonical(d).sysconf) =~= segments(d.sysconf)
            &&& begins_with_dir(canonical(d).sysconf, "usr"@) <==> segments(d.sysconf).len() > 0
                && segments(d.sysconf)[0] == "usr"@
        },
        !has_root(d.localstate) ==> {
            &&& canonical(d).localstate == "/"@ + d.localstate
            &&& segments(canonical(d).localstate) =~= segments(d.localstate)
            &&& begins_with_dir(canonical(d).localstate, "usr"@) <==> segments(
                d.localstate,
            ).len() > 0 && segments(d.localstate)[0] == "usr"@
        },
{
    lemma_fixed_dirs();
    reveal_strlit("/");
    assert(!begins_with_dir("/"@, "opt"@));
    if !has_root(d.sysconf) {
        lemma_segments_of_join("/"@, d.sysconf);
    }
    if !has_root(d.localstate) {
        lemma_segments_of_join("/"@, d.localstate);
    }
}

/// Where the state prefix is `/opt` or lies below it, a fragment that is not
/// rooted resolves to a rooted path in which the tree of the prefix is nested
/// in the fragment's directory of the root: its segments are those of the
/// fragment, then those of the prefix.
pub proof fn lemma_state_dir_nests_opt(sp: Seq<char>, frag: Seq<char>)
    requires
        begins_with_dir(sp, "opt"@),
        !has_root(frag),
    ensures
        state_dir(sp, frag) == join("/"@, frag) + sp,
        has_root(state_dir(sp, frag)),
        segments(state_dir(sp, frag)) =~= segments(frag) + segments(sp),
{
    lemma_fixed_dirs();
    lemma_fixed_dirs_rooted();
    lemma_join_keeps_root("/"@, frag);
    lemma_segments_of_join("/"@, frag);
    lemma_segments_before_rooted(join("/"@, frag), sp);
}

/// A layout at `/opt` or below it keeps its configuration and its local state
/// in a tree of its own: a fragment of either that is not rooted is pushed
/// onto the root of the file system, and the prefix follows it.
pub proof fn lemma_opt_prefix_nests_state(d: DirsView)
    requires
        begins_with_dir(d.prefix, "opt"@),
    ensures
        !has_root(d.sysconf) ==> {
            &&& canonical(d).sysconf == join("/"@, d.sysconf) + d.prefix
            &&& has_root(canonical(d).sysconf)
            &&& segments(canonical(d).sysconf) =~= segments(d.sysconf) + segments(d.prefix)
        },
        !has_root(d.localstate) ==> {
            &&& canonical(d).localstate == join("/"@, d.localstate) + d.prefix
            &&& has_root(canonical(d).localstate)
            &&& segments(canonical(d).localstate) =~= segments(d.localstate) + segments(
                d.prefix,
            )
        },
{
    reveal_strlit("usr");
    reveal_strlit("opt");
    assert("usr"@[0] != "opt"@[0]);
    assert(state_prefix(d.prefix) == d.prefix);
    if !has_root(d.sysconf) {
        lemma_state_dir_nests_opt(d.prefix, d.sysconf);
    }
    if !has_root(d.localstate) {
        lemma_state_dir_nests_opt(d.prefix, d.localstate);
    }
}

/// The documentation of a project whose name is not rooted lies, in the
/// canonical default layout, in the directory of that name below
/// `/usr/local/share/doc`.
pub proof fn lemma_project_doc_dir(name: Seq<char>)
    requires
        !has_root(name),
    ensures
        canonical(DirsView { doc: join("doc"@, name), ..default_dirs() }).doc
            == "/usr/local/share/doc/"@ + name,
{
    reveal_strlit("/usr/local");
    reveal_strlit("/usr/local/share/doc/");
    reveal_strlit("share");
    reveal_strlit("doc");
    lemma_default_prefix_is_below_usr();
    let dataroot = join("/usr/local"@, "share"@);
    let doc = join("doc"@, name);
    assert(doc =~= "doc"@ + seq![sep()] + name);
    assert(join(dataroot, doc) =~= "/usr/local/share/doc/"@ + name);
}

/// The default prefix lies below `/usr`, and is not the root.
pub proof fn lemma_default_prefix_is_below_usr()
    ensures
        begins_with_dir("/usr/local"@, "usr"@),
        !is_root("/usr/local"@),
{
    reveal_strlit("/usr/local");
    reveal_strlit("local");
    reveal_strlit("/usr");
    lemma_fixed_dirs();
    assert("/usr/local"@ =~= join("/usr"@, "local"@));
    lemma_join_stays_below("/usr"@, "local"@, "usr"@);
}

} // verus!
