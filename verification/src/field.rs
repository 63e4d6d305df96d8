//! The directories of a layout by name.
//!
//! Each directory has the name of the variable that build systems in the GNU
//! style keep it in. By these names a layout is overridden, written out and
//! read back.

use crate::path::same_text;
use vstd::prelude::*;

verus! {

/// One directory of a layout.
#[derive(Clone, Copy, Debug, PartialEq, Eq, Structural)]
pub enum Field {
    Prefix,
    ExecPrefix,
    BinDir,
    SbinDir,
    LibDir,
    LibexecDir,
    IncludeDir,
    DatarootDir,
    DataDir,
    ManDir,
    DocDir,
    InfoDir,
    LocaleDir,
    LocalstateDir,
    RunstateDir,
    SharedstateDir,
    SysconfDir,
}

/// The name of the directory `f`.
pub open spec fn field_name(f: Field) -> Seq<char> {
    match f {
        Field::Prefix => "prefix"@,
        Field::ExecPrefix => "exec_prefix"@,
        Field::BinDir => "bindir"@,
        Field::SbinDir => "sbindir"@,
        Field::LibDir => "libdir"@,
        Field::LibexecDir => "libexecdir"@,
        Field::IncludeDir => "includedir"@,
        Field::DatarootDir => "datarootdir"@,
        Field::DataDir => "datadir"@,
        Field::ManDir => "mandir"@,
        Field::DocDir => "docdir"@,
        Field::InfoDir => "infodir"@,
        Field::LocaleDir => "localedir"@,
        Field::LocalstateDir => "localstatedir"@,
        Field::RunstateDir => "runstatedir"@,
        Field::SharedstateDir => "sharedstatedir"@,
        Field::SysconfDir => "sysconfdir"@,
    }
}

/// The directory whose name is `name`, if there is one.
pub open spec fn field_named(name: Seq<char>) -> Option<Field> {
    if name == "prefix"@ {
        Some(Field::Prefix)
    } else if name == "exec_prefix"@ {
        Some(Field::ExecPrefix)
    } else if name == "bindir"@ {
        Some(Field::BinDir)
    } else if name == "sbindir"@ {
        Some(Field::SbinDir)
    } else if name == "libdir"@ {
        Some(Field::LibDir)
    } else if name == "libexecdir"@ {
        Some(Field::LibexecDir)
    } else if name == "includedir"@ {
        Some(Field::IncludeDir)
    } else if name == "datarootdir"@ {
        Some(Field::DatarootDir)
    } else if name == "datadir"@ {
        Some(Field::DataDir)
    } else if name == "mandir"@ {
        Some(Field::ManDir)
    } else if name == "docdir"@ {
        Some(Field::DocDir)
    } else if name == "infodir"@ {
        Some(Field::InfoDir)
    } else if name == "localedir"@ {
        Some(Field::LocaleDir)
    } else if name == "localstatedir"@ {
        Some(Field::LocalstateDir)
    } else if name == "runstatedir"@ {
        Some(Field::RunstateDir)
    } else if name == "sharedstatedir"@ {
        Some(Field::SharedstateDir)
    } else if name == "sysconfdir"@ {
        Some(Field::SysconfDir)
    } else {
        None
    }
}

/// The directories in the order in which a layout is written out.
pub open spec fn all_fields() -> Seq<Field> {
    seq![
        Field::Prefix,
        Field::ExecPrefix,
        Field::BinDir,
        Field::SbinDir,
        Field::LibDir,
        Field::LibexecDir,
        Field::IncludeDir,
        Field::DatarootDir,
        Field::DataDir,
        Field::ManDir,
        Field::DocDir,
        Field::InfoDir,
        Field::LocaleDir,
        Field::LocalstateDir,
        Field::RunstateDir,
        Field::SharedstateDir,
        Field::SysconfDir,
    ]
}

impl Field {
    /// The place of this directory in [`all_fields`].
    pub open spec fn position(self) -> int {
        match self {
            Field::Prefix => 0,
            Field::ExecPrefix => 1,
            Field::BinDir => 2,
            Field::SbinDir => 3,
            Field::LibDir => 4,
            Field::LibexecDir => 5,
            Field::IncludeDir => 6,
            Field::DatarootDir => 7,
            Field::DataDir => 8,
            Field::ManDir => 9,
            Field::DocDir => 10,
            Field::InfoDir => 11,
            Field::LocaleDir => 12,
            Field::LocalstateDir => 13,
            Field::RunstateDir => 14,
            Field::SharedstateDir => 15,
            Field::SysconfDir => 16,
        }
    }

    /// The name of this directory.
    pub fn name(self) -> (r: &'static str)
        ensures
            r@ == field_name(self),
    {
        match self {
            Field::Prefix => "prefix",
            Field::ExecPrefix => "exec_prefix",
            Field::BinDir => "bindir",
            Field::SbinDir => "sbindir",
            Field::LibDir => "libdir",
            Field::LibexecDir => "libexecdir",
            Field::IncludeDir => "includedir",
            Field::DatarootDir => "datarootdir",
            Field::DataDir => "datadir",
            Field::ManDir => "mandir",
            Field::DocDir => "docdir",
            Field::InfoDir => "infodir",
            Field::LocaleDir => "localedir",
            Field::LocalstateDir => "localstatedir",
            Field::RunstateDir => "runstatedir",
            Field::SharedstateDir => "sharedstatedir",
            Field::SysconfDir => "sysconfdir",
        }
    }

    /// The directory whose name is `name`, if there is one.
    pub fn from_name(name: &str) -> (r: Option<Field>)
        ensures
            r == field_named(name@),
    {
        if same_text(name, "prefix") {
            Some(Field::Prefix)
        } else if same_text(name, "exec_prefix") {
            Some(Field::ExecPrefix)
        } else if same_text(name, "bindir") {
            Some(Field::BinDir)
        } else if same_text(name, "sbindir") {
            Some(Field::SbinDir)
        } else if same_text(name, "libdir") {
            Some(Field::LibDir)
        } else if same_text(name, "libexecdir") {
            Some(Field::LibexecDir)
        } else if same_text(name, "includedir") {
            Some(Field::IncludeDir)
        } else if same_text(name, "datarootdir") {
            Some(Field::DatarootDir)
        } else if same_text(name, "datadir") {
            Some(Field::DataDir)
        } else if same_text(name, "mandir") {
            Some(Field::ManDir)
        } else if same_text(name, "docdir") {
            Some(Field::DocDir)
        } else if same_text(name, "infodir") {
            Some(Field::InfoDir)
        } else if same_text(name, "localedir") {
            Some(Field::LocaleDir)
        } else if same_text(name, "localstatedir") {
            Some(Field::LocalstateDir)
        } else if same_text(name, "runstatedir") {
            Some(Field::RunstateDir)
        } else if same_text(name, "sharedstatedir") {
            Some(Field::SharedstateDir)
        } else if same_text(name, "sysconfdir") {
            Some(Field::SysconfDir)
        } else {
            None
        }
    }

    /// The directories in the order in which a layout is written out.
    pub fn all() -> (r: Vec<Field>)
        ensures
            r@ == all_fields(),
    {
        let r = vec![
            Field::Prefix,
            Field::ExecPrefix,
            Field::BinDir,
            Field::SbinDir,
            Field::LibDir,
            Field::LibexecDir,
            Field::IncludeDir,
            Field::DatarootDir,
            Field::DataDir,
            Field::ManDir,
            Field::DocDir,
            Field::InfoDir,
            Field::LocaleDir,
            Field::LocalstateDir,
            Field::RunstateDir,
            Field::SharedstateDir,
            Field::SysconfDir,
        ];
        assert(r@ =~= all_fields());
        r
    }
}

/// Every directory stands at its place in [`all_fields`], which holds
/// nothing else.
pub proof fn lemma_all_fields()
    ensures
        all_fields().len() == 17,
        forall|f: Field| 0 <= #[trigger] f.position() < 17 && all_fields()[f.position()] == f,
        forall|i: int| 0 <= i < 17 ==> (#[trigger] all_fields()[i]).position() == i,
{
}

/// The names of the directories differ from one another in their length or
/// in their first character.
pub proof fn lemma_names_differ()
    ensures
        forall|f: Field, g: Field| field_name(f) == field_name(g) ==> f == g,
{
    reveal_strlit("prefix");
    reveal_strlit("exec_prefix");
    reveal_strlit("bindir");
    reveal_strlit("sbindir");
    reveal_strlit("libdir");
    reveal_strlit("libexecdir");
    reveal_strlit("includedir");
    reveal_strlit("datarootdir");
    reveal_strlit("datadir");
    reveal_strlit("mandir");
    reveal_strlit("docdir");
    reveal_strlit("infodir");
    reveal_strlit("localedir");
    reveal_strlit("localstatedir");
    reveal_strlit("runstatedir");
    reveal_strlit("sharedstatedir");
    reveal_strlit("sysconfdir");
    assert("prefix"@.len() == 6 && "prefix"@[0] == 'p');
    assert("exec_prefix"@.len() == 11 && "exec_prefix"@[0] == 'e');
    assert("bindir"@.len() == 6 && "bindir"@[0] == 'b');
    assert("sbindir"@.len() == 7 && "sbindir"@[0] == 's');
    assert("libdir"@.len() == 6 && "libdir"@[0] == 'l');
    assert("libexecdir"@.len() == 10 && "libexecdir"@[0] == 'l');
    assert("includedir"@.len() == 10 && "includedir"@[0] == 'i');
    assert("datarootdir"@.len() == 11 && "datarootdir"@[0] == 'd');
    assert("datadir"@.len() == 7 && "datadir"@[0] == 'd');
    assert("mandir"@.len() == 6 && "mandir"@[0] == 'm');
    assert("docdir"@.len() == 6 && "docdir"@[0] == 'd');
    assert("infodir"@.len() == 7 && "infodir"@[0] == 'i');
    assert("localedir"@.len() == 9 && "localedir"@[0] == 'l');
    assert("localstatedir"@.len() == 13 && "localstatedir"@[0] == 'l');
    assert("runstatedir"@.len() == 11 && "runstatedir"@[0] == 'r');
    assert("sharedstatedir"@.len() == 14 && "sharedstatedir"@[0] == 's');
    assert("sysconfdir"@.len() == 10 && "sysconfdir"@[0] == 's');
    assert forall|f: Field, g: Field| field_name(f) == field_name(g) implies f == g by {
        if f != g {
            assert(field_name(f).len() != field_name(g).len() || field_name(f)[0] != field_name(
                g,
            )[0]);
        }
    }
}

/// A directory is found again by its name.
pub proof fn lemma_field_found_by_name(f: Field)
    ensures
        field_named(field_name(f)) == Some(f),
{
    lemma_names_differ();
    let found = field_named(field_name(f));
    assert(found is Some);
    assert(field_name(found.unwrap()) == field_name(f));
}

/// A name belongs to the directory that it finds, and to no other.
pub proof fn lemma_name_of_found_field(name: Seq<char>, f: Field)
    ensures
        field_named(name) == Some(f) <==> name == field_name(f),
{
    lemma_field_found_by_name(f);
}

} // verus!
