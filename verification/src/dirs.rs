//! The record of installation directories and the ways to make one.

use crate::field::Field;
use crate::path::join;
use crate::path::join_paths;
use vstd::prelude::*;
use vstd::string::*;

verus! {

/// The directories of an installation, one path for each category of
/// installed file.
///
/// A path may be rooted, or a fragment that canonicalization resolves against
/// another directory of the record.
#[derive(Clone, Debug, PartialEq, Eq)]
#[non_exhaustive]
pub struct InstallDirs {
    /// The root of the installation tree.
    pub prefix: String,
    /// The root for files that depend on the architecture.
    pub exec_prefix: String,
    /// Programs for every user.
    pub bin: String,
    /// Programs for administrators.
    pub sbin: String,
    /// Libraries.
    pub lib: String,
    /// Programs that other programs run.
    pub libexec: String,
    /// Header files.
    pub includedir: String,
    /// The root for files that do not depend on the architecture.
    pub dataroot: String,
    /// Read-only data.
    pub data: String,
    /// Manual pages.
    pub man: String,
    /// Documentation.
    pub doc: String,
    /// Info pages.
    pub info: String,
    /// Message catalogues.
    pub locale: String,
    /// State that belongs to one host.
    pub localstate: String,
    /// State that does not outlive a boot.
    pub runstate: String,
    /// State that several hosts share.
    pub sharedstate: String,
    /// Configuration of one host.
    pub sysconf: String,
}

/// What an [`InstallDirs`] holds: each path as the sequence of its characters.
pub struct DirsView {
    pub prefix: Seq<char>,
    pub exec_prefix: Seq<char>,
    pub bin: Seq<char>,
    pub sbin: Seq<char>,
    pub lib: Seq<char>,
    pub libexec: Seq<char>,
    pub includedir: Seq<char>,
    pub dataroot: Seq<char>,
    pub data: Seq<char>,
    pub man: Seq<char>,
    pub doc: Seq<char>,
    pub info: Seq<char>,
    pub locale: Seq<char>,
    pub localstate: Seq<char>,
    pub runstate: Seq<char>,
    pub sharedstate: Seq<char>,
    pub sysconf: Seq<char>,
}

impl DirsView {
    /// The path of the directory `f`.
    pub open spec fn get(self, f: Field) -> Seq<char> {
        match f {
            Field::Prefix => self.prefix,
            Field::ExecPrefix => self.exec_prefix,
            Field::BinDir => self.bin,
            Field::SbinDir => self.sbin,
            Field::LibDir => self.lib,
            Field::LibexecDir => self.libexec,
            Field::IncludeDir => self.includedir,
            Field::DatarootDir => self.dataroot,
            Field::DataDir => self.data,
            Field::ManDir => self.man,
            Field::DocDir => self.doc,
            Field::InfoDir => self.info,
            Field::LocaleDir => self.locale,
            Field::LocalstateDir => self.localstate,
            Field::RunstateDir => self.runstate,
            Field::SharedstateDir => self.sharedstate,
            Field::SysconfDir => self.sysconf,
        }
    }

    /// This layout with `path` as the directory `f`.
    pub open spec fn set(self, f: Field, path: Seq<char>) -> DirsView {
        match f {
            Field::Prefix => DirsView { prefix: path, ..self },
            Field::ExecPrefix => DirsView { exec_prefix: path, ..self },
            Field::BinDir => DirsView { bin: path, ..self },
            Field::SbinDir => DirsView { sbin: path, ..self },
            Field::LibDir => DirsView { lib: path, ..self },
            Field::LibexecDir => DirsView { libexec: path, ..self },
            Field::IncludeDir => DirsView { includedir: path, ..self },
            Field::DatarootDir => DirsView { dataroot: path, ..self },
            Field::DataDir => DirsView { data: path, ..self },
            Field::ManDir => DirsView { man: path, ..self },
            Field::DocDir => DirsView { doc: path, ..self },
            Field::InfoDir => DirsView { info: path, ..self },
            Field::LocaleDir => DirsView { locale: path, ..self },
            Field::LocalstateDir => DirsView { localstate: path, ..self },
            Field::RunstateDir => DirsView { runstate: path, ..self },
            Field::SharedstateDir => DirsView { sharedstate: path, ..self },
            Field::SysconfDir => DirsView { sysconf: path, ..self },
        }
    }
}

impl View for InstallDirs {
    type V = DirsView;

    open spec fn view(&self) -> DirsView {
        DirsView {
            prefix: self.prefix@,
            exec_prefix: self.exec_prefix@,
            bin: self.bin@,
            sbin: self.sbin@,
            lib: self.lib@,
            libexec: self.libexec@,
            includedir: self.includedir@,
            dataroot: self.dataroot@,
            data: self.data@,
            man: self.man@,
            doc: self.doc@,
            info: self.info@,
            locale: self.locale@,
            localstate: self.localstate@,
            runstate: self.runstate@,
            sharedstate: self.sharedstate@,
            sysconf: self.sysconf@,
        }
    }
}

/// The layout that every constructor starts from: a rooted prefix, and for
/// each other directory the customary fragment.
///
/// `sysconf` is `var`, as `localstate` is.
pub open spec fn default_dirs() -> DirsView {
    DirsView {
        prefix: "/usr/local"@,
        exec_prefix: ""@,
        bin: "bin"@,
        sbin: "sbin"@,
        lib: "lib"@,
        libexec: "libexec"@,
        includedir: "include"@,
        dataroot: "share"@,
        data: ""@,
        man: "man"@,
        doc: "doc"@,
        info: "info"@,
        locale: "locale"@,
        localstate: "var"@,
        runstate: "run"@,
        sharedstate: "com"@,
        sysconf: "var"@,
    }
}

impl InstallDirs {
    /// The default layout.
    pub fn defaults() -> (r: InstallDirs)
        ensures
            r@ == default_dirs(),
    {
        InstallDirs {
            prefix: String::from_str("/usr/local"),
            exec_prefix: String::from_str(""),
            bin: String::from_str("bin"),
            sbin: String::from_str("sbin"),
            lib: String::from_str("lib"),
            libexec: String::from_str("libexec"),
            includedir: String::from_str("include"),
            dataroot: String::from_str("share"),
            data: String::from_str(""),
            man: String::from_str("man"),
            doc: String::from_str("doc"),
            info: String::from_str("info"),
            locale: String::from_str("locale"),
            localstate: String::from_str("var"),
            runstate: String::from_str("run"),
            sharedstate: String::from_str("com"),
            sysconf: String::from_str("var"),
        }
    }

    /// The default layout for the project `name`: its documentation goes to
    /// `name` pushed onto `doc`.
    pub fn with_project_name(name: &str) -> (r: InstallDirs)
        ensures
            r@ == (DirsView { doc: join("doc"@, name@), ..default_dirs() }),
    {
        let mut dirs = InstallDirs::defaults();
        dirs.doc = join_paths("doc", name);
        dirs
    }

    /// The default layout for files built for `target`: `exec_prefix` is
    /// `target`.
    pub fn with_exec_target(target: &str) -> (r: InstallDirs)
        ensures
            r@ == (DirsView { exec_prefix: target@, ..default_dirs() }),
    {
        let mut dirs = InstallDirs::defaults();
        dirs.exec_prefix = String::from_str(target);
        dirs
    }

    /// The default layout for the project `name`, built for `target`.
    pub fn with_project_name_and_target(name: &str, target: &str) -> (r: InstallDirs)
        ensures
            r@ == (DirsView {
                exec_prefix: target@,
                doc: join("doc"@, name@),
                ..default_dirs()
            }),
    {
        let mut dirs = InstallDirs::defaults();
        dirs.exec_prefix = String::from_str(target);
        dirs.doc = join_paths("doc", name);
        dirs
    }

    /// The path of the directory `f`.
    pub fn get(&self, f: Field) -> (r: &str)
        ensures
            r@ == self@.get(f),
    {
        match f {
            Field::Prefix => self.prefix.as_str(),
            Field::ExecPrefix => self.exec_prefix.as_str(),
            Field::BinDir => self.bin.as_str(),
            Field::SbinDir => self.sbin.as_str(),
            Field::LibDir => self.lib.as_str(),
            Field::LibexecDir => self.libexec.as_str(),
            Field::IncludeDir => self.includedir.as_str(),
            Field::DatarootDir => self.dataroot.as_str(),
            Field::DataDir => self.data.as_str(),
            Field::ManDir => self.man.as_str(),
            Field::DocDir => self.doc.as_str(),
            Field::InfoDir => self.info.as_str(),
            Field::LocaleDir => self.locale.as_str(),
            Field::LocalstateDir => self.localstate.as_str(),
            Field::RunstateDir => self.runstate.as_str(),
            Field::SharedstateDir => self.sharedstate.as_str(),
            Field::SysconfDir => self.sysconf.as_str(),
        }
    }

    /// Makes `path` the directory `f`, and leaves every other directory as it
    /// is.
    pub fn set(&mut self, f: Field, path: String)
        ensures
            final(self)@ == old(self)@.set(f, path@),
    {
        match f {
            Field::Prefix => {
                self.prefix = path;
            },
            Field::ExecPrefix => {
                self.exec_prefix = path;
            },
            Field::BinDir => {
                self.bin = path;
            },
            Field::SbinDir => {
                self.sbin = path;
            },
            Field::LibDir => {
                self.lib = path;
            },
            Field::LibexecDir => {
                self.libexec = path;
            },
            Field::IncludeDir => {
                self.includedir = path;
            },
            Field::DatarootDir => {
                self.dataroot = path;
            },
            Field::DataDir => {
                self.data = path;
            },
            Field::ManDir => {
                self.man = path;
            },
            Field::DocDir => {
                self.doc = path;
            },
            Field::InfoDir => {
                self.info = path;
            },
            Field::LocaleDir => {
                self.locale = path;
            },
            Field::LocalstateDir => {
                self.localstate = path;
            },
            Field::RunstateDir => {
                self.runstate = path;
            },
            Field::SharedstateDir => {
                self.sharedstate = path;
            },
            Field::SysconfDir => {
                self.sysconf = path;
            },
        }
    }
}

} // verus!
