//! Layouts as records of named paths.
//!
//! A record is a list of entries, each the name of a directory and a path.
//! A layout is written out as the record of all its directories, and read
//! back from a record that may leave directories out. A list of overrides is
//! a record too.

use crate::dirs::default_dirs;
use crate::dirs::DirsView;
use crate::dirs::InstallDirs;
use crate::field::all_fields;
use crate::field::field_name;
use crate::field::field_named;
use crate::field::lemma_all_fields;
use crate::field::lemma_field_found_by_name;
use crate::field::lemma_name_of_found_field;
use crate::field::lemma_names_differ;
use crate::field::Field;
use crate::path::same_text;
use vstd::prelude::*;
use vstd::string::*;

verus! {

/// What a record holds: for each entry, the characters of its name and those
/// of its path.
pub open spec fn record_view(rec: Seq<(String, String)>) -> Seq<(Seq<char>, Seq<char>)> {
    Seq::new(rec.len(), |i: int| (rec[i].0@, rec[i].1@))
}

/// The path that `rec` gives for `name`: that of its last entry of that name.
pub open spec fn lookup(rec: Seq<(Seq<char>, Seq<char>)>, name: Seq<char>) -> Option<Seq<char>>
    decreases rec.len(),
{
    if rec.len() == 0 {
        None
    } else if rec.last().0 == name {
        Some(rec.last().1)
    } else {
        lookup(rec.drop_last(), name)
    }
}

/// The directory `f` of `base` laid over with `rec`: the path that `rec`
/// gives for the name of `f`, or that of `base` where it gives none.
pub open spec fn pick(base: DirsView, rec: Seq<(Seq<char>, Seq<char>)>, f: Field) -> Seq<char> {
    match lookup(rec, field_name(f)) {
        Some(path) => path,
        None => base.get(f),
    }
}

/// The layout `base` laid over with `rec`. Entries whose name is that of no
/// directory count for nothing.
pub open spec fn overlay(base: DirsView, rec: Seq<(Seq<char>, Seq<char>)>) -> DirsView {
    DirsView {
        prefix: pick(base, rec, Field::Prefix),
        exec_prefix: pick(base, rec, Field::ExecPrefix),
        bin: pick(base, rec, Field::BinDir),
        sbin: pick(base, rec, Field::SbinDir),
        lib: pick(base, rec, Field::LibDir),
        libexec: pick(base, rec, Field::LibexecDir),
        includedir: pick(base, rec, Field::IncludeDir),
        dataroot: pick(base, rec, Field::DatarootDir),
        data: pick(base, rec, Field::DataDir),
        man: pick(base, rec, Field::ManDir),
        doc: pick(base, rec, Field::DocDir),
        info: pick(base, rec, Field::InfoDir),
        locale: pick(base, rec, Field::LocaleDir),
        localstate: pick(base, rec, Field::LocalstateDir),
        runstate: pick(base, rec, Field::RunstateDir),
        sharedstate: pick(base, rec, Field::SharedstateDir),
        sysconf: pick(base, rec, Field::SysconfDir),
    }
}

/// The record of the layout `d`: an entry for each directory, in the order of
/// [`all_fields`].
pub open spec fn encoded(d: DirsView) -> Seq<(Seq<char>, Seq<char>)> {
    Seq::new(17, |i: int| (field_name(all_fields()[i]), d.get(all_fields()[i])))
}

/// The entry `i` of `rec` cannot be read: its name is that of no directory,
/// or an entry before it has the same name.
pub open spec fn refused(rec: Seq<(Seq<char>, Seq<char>)>, i: int) -> bool {
    field_named(rec[i].0) is None || lookup(rec.take(i), rec[i].0) is Some
}

/// The index of the first entry of `rec` that cannot be read, or the length
/// of `rec` where every entry can.
pub open spec fn first_refused(rec: Seq<(Seq<char>, Seq<char>)>) -> int
    decreases rec.len(),
{
    if rec.len() == 0 {
        0
    } else {
        let front = rec.drop_last();
        let k = first_refused(front);
        if k < front.len() {
            k
        } else if refused(rec, front.len() as int) {
            front.len() as int
        } else {
            rec.len() as int
        }
    }
}

/// Why a record could not be read.
#[derive(Debug)]
pub enum DecodeError {
    /// An entry has this name, which is that of no directory.
    UnknownField(String),
    /// A second entry names this directory.
    DuplicateField(Field),
}

/// What a [`DecodeError`] holds.
pub enum DecodeErrorView {
    UnknownField(Seq<char>),
    DuplicateField(Field),
}

impl View for DecodeError {
    type V = DecodeErrorView;

    open spec fn view(&self) -> DecodeErrorView {
        match self {
            DecodeError::UnknownField(name) => DecodeErrorView::UnknownField(name@),
            DecodeError::DuplicateField(f) => DecodeErrorView::DuplicateField(*f),
        }
    }
}

/// Why the entry `i` of `rec` cannot be read, where it cannot.
pub open spec fn refusal(rec: Seq<(Seq<char>, Seq<char>)>, i: int) -> DecodeErrorView {
    match field_named(rec[i].0) {
        None => DecodeErrorView::UnknownField(rec[i].0),
        Some(f) => DecodeErrorView::DuplicateField(f),
    }
}

/// What reading the record `rec` gives: the default layout laid over with
/// `rec` where every entry can be read, else the reason why the first one
/// that cannot be read cannot.
pub open spec fn decoded(rec: Seq<(Seq<char>, Seq<char>)>) -> Result<DirsView, DecodeErrorView> {
    let i = first_refused(rec);
    if i < rec.len() {
        Err(refusal(rec, i))
    } else {
        Ok(overlay(default_dirs(), rec))
    }
}

/// `first_refused` is the one index with a refused entry, or the end of the
/// record, at it and no refused entry before it.
pub proof fn lemma_first_refused(rec: Seq<(Seq<char>, Seq<char>)>)
    ensures
        0 <= first_refused(rec) <= rec.len(),
        forall|j: int| 0 <= j < first_refused(rec) ==> !refused(rec, j),
        first_refused(rec) < rec.len() ==> refused(rec, first_refused(rec)),
    decreases rec.len(),
{
    if rec.len() > 0 {
        let front = rec.drop_last();
        lemma_first_refused(front);
        assert forall|j: int| 0 <= j < front.len() implies refused(front, j) == refused(rec, j) by {
            assert(front.take(j) =~= rec.take(j));
        }
    }
}

/// Where the entry `i` of `rec` is refused and none before it is, `i` is the
/// first refused entry; where none is refused at all, that is the length.
pub proof fn lemma_first_refused_is(rec: Seq<(Seq<char>, Seq<char>)>, i: int)
    requires
        0 <= i <= rec.len(),
        forall|j: int| 0 <= j < i ==> !refused(rec, j),
        i < rec.len() ==> refused(rec, i),
    ensures
        first_refused(rec) == i,
{
    lemma_first_refused(rec);
}

/// One more entry changes what a record gives for the directory `g` only
/// where the entry has the name of `g`.
pub proof fn lemma_pick_step(base: DirsView, rec: Seq<(Seq<char>, Seq<char>)>, i: int, g: Field)
    requires
        0 <= i < rec.len(),
    ensures
        pick(base, rec.take(i + 1), g) == if field_named(rec[i].0) == Some(g) {
            rec[i].1
        } else {
            pick(base, rec.take(i), g)
        },
{
    let t = rec.take(i + 1);
    assert(t.last() == rec[i]);
    assert(t.drop_last() =~= rec.take(i));
    lemma_name_of_found_field(rec[i].0, g);
}

/// One more entry sets the directory that it names, and counts for nothing
/// where it names none.
pub proof fn lemma_overlay_step(base: DirsView, rec: Seq<(Seq<char>, Seq<char>)>, i: int)
    requires
        0 <= i < rec.len(),
    ensures
        overlay(base, rec.take(i + 1)) == match field_named(rec[i].0) {
            Some(f) => overlay(base, rec.take(i)).set(f, rec[i].1),
            None => overlay(base, rec.take(i)),
        },
{
    lemma_pick_step(base, rec, i, Field::Prefix);
    lemma_pick_step(base, rec, i, Field::ExecPrefix);
    lemma_pick_step(base, rec, i, Field::BinDir);
    lemma_pick_step(base, rec, i, Field::SbinDir);
    lemma_pick_step(base, rec, i, Field::LibDir);
    lemma_pick_step(base, rec, i, Field::LibexecDir);
    lemma_pick_step(base, rec, i, Field::IncludeDir);
    lemma_pick_step(base, rec, i, Field::DatarootDir);
    lemma_pick_step(base, rec, i, Field::DataDir);
    lemma_pick_step(base, rec, i, Field::ManDir);
    lemma_pick_step(base, rec, i, Field::DocDir);
    lemma_pick_step(base, rec, i, Field::InfoDir);
    lemma_pick_step(base, rec, i, Field::LocaleDir);
    lemma_pick_step(base, rec, i, Field::LocalstateDir);
    lemma_pick_step(base, rec, i, Field::RunstateDir);
    lemma_pick_step(base, rec, i, Field::SharedstateDir);
    lemma_pick_step(base, rec, i, Field::SysconfDir);
}

/// A layout laid over with nothing is that layout.
pub proof fn lemma_overlay_of_nothing(base: DirsView)
    ensures
        overlay(base, Seq::empty()) == base,
{
}

impl InstallDirs {
    /// Lays the overrides over this layout: each entry that names a directory
    /// sets it, a later entry prevails over an earlier one of the same name,
    /// and a directory that no entry names stays as it is.
    pub fn with_overrides(self, overrides: &Vec<(String, String)>) -> (r: InstallDirs)
        ensures
            r@ == overlay(self@, record_view(overrides@)),
    {
        let ghost base = self@;
        let ghost rec = record_view(overrides@);
        let mut dirs = self;
        let mut i: usize = 0;
        while i < overrides.len()
            invariant
                i <= overrides.len(),
                rec == record_view(overrides@),
                dirs@ == overlay(base, rec.take(i as int)),
            decreases overrides.len() - i,
        {
            proof {
                lemma_overlay_step(base, rec, i as int);
            }
            match Field::from_name(overrides[i].0.as_str()) {
                Some(f) => {
                    dirs.set(f, overrides[i].1.clone());
                },
                None => {},
            }
            i += 1;
        }
        assert(rec.take(i as int) =~= rec);
        dirs
    }

    /// Writes this layout out as a record: an entry for each directory.
    pub fn encode(&self) -> (r: Vec<(String, String)>)
        ensures
            r@.len() == 17,
            record_view(r@) == encoded(self@),
    {
        let fields = Field::all();
        let mut rec: Vec<(String, String)> = Vec::new();
        let mut i: usize = 0;
        while i < fields.len()
            invariant
                fields@ == all_fields(),
                fields@.len() == 17,
                i <= 17,
                rec@.len() == i,
                forall|j: int|
                    0 <= j < i ==> {
                        &&& (#[trigger] rec@[j]).0@ == field_name(all_fields()[j])
                        &&& rec@[j].1@ == self@.get(all_fields()[j])
                    },
            decreases 17 - i,
        {
            let f = fields[i];
            rec.push((String::from_str(f.name()), String::from_str(self.get(f))));
            i += 1;
        }
        assert(record_view(rec@) =~= encoded(self@));
        rec
    }

    /// Reads a layout from a record.
    ///
    /// A directory that no entry names has its default. The record is refused
    /// where an entry has the name of no directory, or the name of an entry
    /// before it; the error tells of the first such entry.
    pub fn decode(record: &Vec<(String, String)>) -> (r: Result<InstallDirs, DecodeError>)
        ensures
            match r {
                Ok(dirs) => decoded(record_view(record@)) == Ok::<DirsView, DecodeErrorView>(
                    dirs@,
                ),
                Err(e) => decoded(record_view(record@)) == Err::<DirsView, DecodeErrorView>(e@),
            },
    {
        let ghost rec = record_view(record@);
        let mut dirs = InstallDirs::defaults();
        let mut i: usize = 0;
        while i < record.len()
            invariant
                i <= record.len(),
                rec == record_view(record@),
                forall|j: int| 0 <= j < i ==> !refused(rec, j),
                dirs@ == overlay(default_dirs(), rec.take(i as int)),
            decreases record.len() - i,
        {
            let name = record[i].0.as_str();
            proof {
                lemma_overlay_step(default_dirs(), rec, i as int);
            }
            match Field::from_name(name) {
                None => {
                    proof {
                        lemma_first_refused_is(rec, i as int);
                    }
                    return Err(DecodeError::UnknownField(String::from_str(name)));
                },
                Some(f) => {
                    if named_before(record, i, name) {
                        proof {
                            lemma_first_refused_is(rec, i as int);
                        }
                        return Err(DecodeError::DuplicateField(f));
                    }
                    dirs.set(f, record[i].1.clone());
                },
            }
            i += 1;
        }
        proof {
            assert(rec.take(i as int) =~= rec);
            lemma_first_refused_is(rec, i as int);
        }
        Ok(dirs)
    }
}

/// Tells whether one of the first `upto` entries of `record` has the name
/// `name`.
fn named_before(record: &Vec<(String, String)>, upto: usize, name: &str) -> (r: bool)
    requires
        upto <= record@.len(),
    ensures
        r == (lookup(record_view(record@).take(upto as int), name@) is Some),
{
    let ghost rec = record_view(record@);
    let mut i: usize = 0;
    while i < upto
        invariant
            i <= upto <= record@.len(),
            rec == record_view(record@),
            lookup(rec.take(i as int), name@) is None,
        decreases upto - i,
    {
        if same_text(record[i].0.as_str(), name) {
            proof {
                lemma_lookup_finds(rec.take(upto as int), i as int);
            }
            return true;
        }
        proof {
            let t = rec.take(i + 1);
            assert(t.last() == rec[i as int]);
            assert(t.drop_last() =~= rec.take(i as int));
        }
        i += 1;
    }
    false
}

/// A record gives a path for every name that one of its entries has.
pub proof fn lemma_lookup_finds(rec: Seq<(Seq<char>, Seq<char>)>, i: int)
    requires
        0 <= i < rec.len(),
    ensures
        lookup(rec, rec[i].0) is Some,
    decreases rec.len(),
{
    if rec.last().0 != rec[i].0 {
        lemma_lookup_finds(rec.drop_last(), i);
    }
}

/// A record gives no path for a name that none of its entries has.
pub proof fn lemma_lookup_finds_nothing(rec: Seq<(Seq<char>, Seq<char>)>, name: Seq<char>)
    requires
        forall|j: int| 0 <= j < rec.len() ==> rec[j].0 != name,
    ensures
        lookup(rec, name) is None,
    decreases rec.len(),
{
    if rec.len() > 0 {
        lemma_lookup_finds_nothing(rec.drop_last(), name);
    }
}

/// A record gives for a name the path of the one entry that has it, where
/// there is one such entry.
pub proof fn lemma_lookup_finds_the_entry(rec: Seq<(Seq<char>, Seq<char>)>, i: int)
    requires
        0 <= i < rec.len(),
        forall|j: int| 0 <= j < rec.len() && j != i ==> rec[j].0 != rec[i].0,
    ensures
        lookup(rec, rec[i].0) == Some(rec[i].1),
    decreases rec.len(),
{
    if i < rec.len() - 1 {
        lemma_lookup_finds_the_entry(rec.drop_last(), i);
    }
}

/// No two entries of a layout's record have the same name.
pub proof fn lemma_encoded_names_differ(d: DirsView)
    ensures
        forall|i: int, j: int|
            0 <= i < 17 && 0 <= j < 17 && i != j ==> encoded(d)[i].0 != encoded(d)[j].0,
{
    lemma_names_differ();
    lemma_all_fields();
    assert forall|i: int, j: int| 0 <= i < 17 && 0 <= j < 17 && i != j implies encoded(d)[i].0
        != encoded(d)[j].0 by {
        assert(all_fields()[i].position() == i);
        assert(all_fields()[j].position() == j);
    }
}

/// The record of a layout gives for the name of each directory the path of
/// that directory.
pub proof fn lemma_encoded_gives(d: DirsView, f: Field)
    ensures
        lookup(encoded(d), field_name(f)) == Some(d.get(f)),
{
    lemma_all_fields();
    lemma_encoded_names_differ(d);
    assert(all_fields()[f.position()] == f);
    lemma_lookup_finds_the_entry(encoded(d), f.position());
}

/// Every entry of a layout's record can be read.
pub proof fn lemma_encoded_is_read(d: DirsView)
    ensures
        first_refused(encoded(d)) == 17,
{
    let rec = encoded(d);
    lemma_encoded_names_differ(d);
    assert forall|i: int| 0 <= i < 17 implies !refused(rec, i) by {
        lemma_field_found_by_name(all_fields()[i]);
        lemma_lookup_finds_nothing(rec.take(i), rec[i].0);
    }
    lemma_first_refused_is(rec, 17);
}

/// Reading back the record of a layout gives that layout.
pub proof fn lemma_decode_of_encoded(d: DirsView)
    ensures
        decoded(encoded(d)) == Ok::<DirsView, DecodeErrorView>(d),
{
    lemma_encoded_is_read(d);
    lemma_encoded_gives(d, Field::Prefix);
    lemma_encoded_gives(d, Field::ExecPrefix);
    lemma_encoded_gives(d, Field::BinDir);
    lemma_encoded_gives(d, Field::SbinDir);
    lemma_encoded_gives(d, Field::LibDir);
    lemma_encoded_gives(d, Field::LibexecDir);
    lemma_encoded_gives(d, Field::IncludeDir);
    lemma_encoded_gives(d, Field::DatarootDir);
    lemma_encoded_gives(d, Field::DataDir);
    lemma_encoded_gives(d, Field::ManDir);
    lemma_encoded_gives(d, Field::DocDir);
    lemma_encoded_gives(d, Field::InfoDir);
    lemma_encoded_gives(d, Field::LocaleDir);
    lemma_encoded_gives(d, Field::LocalstateDir);
    lemma_encoded_gives(d, Field::RunstateDir);
    lemma_encoded_gives(d, Field::SharedstateDir);
    lemma_encoded_gives(d, Field::SysconfDir);
}

/// In a record that can be read, no two entries have the same name.
pub proof fn lemma_read_names_differ(rec: Seq<(Seq<char>, Seq<char>)>, i: int, j: int)
    requires
        decoded(rec) is Ok,
        0 <= i < j < rec.len(),
    ensures
        rec[i].0 != rec[j].0,
{
    lemma_first_refused(rec);
    assert(!refused(rec, j));
    if rec[i].0 == rec[j].0 {
        assert(rec.take(j)[i] == rec[i]);
        lemma_lookup_finds(rec.take(j), i);
    }
}

/// A record that can be read gives each directory that an entry names the
/// path of that entry, and each directory that no entry names its default.
pub proof fn lemma_decoded_directory(rec: Seq<(Seq<char>, Seq<char>)>, f: Field)
    requires
        decoded(rec) is Ok,
    ensures
        forall|i: int|
            0 <= i < rec.len() && #[trigger] rec[i].0 == field_name(f) ==> (decoded(
                rec,
            )->Ok_0).get(f) == rec[i].1,
        (forall|i: int| 0 <= i < rec.len() ==> #[trigger] rec[i].0 != field_name(f))
            ==> (decoded(rec)->Ok_0).get(f) == default_dirs().get(f),
{
    let dirs = decoded(rec)->Ok_0;
    assert(dirs.get(f) == pick(default_dirs(), rec, f));
    assert forall|i: int| 0 <= i < rec.len() && #[trigger] rec[i].0 == field_name(
        f,
    ) implies dirs.get(f) == rec[i].1 by {
        assert forall|j: int| 0 <= j < rec.len() && j != i implies rec[j].0 != rec[i].0 by {
            if j < i {
                lemma_read_names_differ(rec, j, i);
            } else {
                lemma_read_names_differ(rec, i, j);
            }
        }
        lemma_lookup_finds_the_entry(rec, i);
    }
    if forall|i: int| 0 <= i < rec.len() ==> #[trigger] rec[i].0 != field_name(f) {
        lemma_lookup_finds_nothing(rec, field_name(f));
    }
}

/// A record can be read if and only if each of its entries has the name of a
/// directory and no two of them have the same name.
pub proof fn lemma_decoded_is_ok(rec: Seq<(Seq<char>, Seq<char>)>)
    ensures
        decoded(rec) is Ok <==> {
            &&& forall|i: int| 0 <= i < rec.len() ==> field_named(#[trigger] rec[i].0) is Some
            &&& forall|i: int, j: int|
                0 <= i < j < rec.len() ==> #[trigger] rec[i].0 != #[trigger] rec[j].0
        },
{
    lemma_first_refused(rec);
    if decoded(rec) is Ok {
        assert forall|i: int, j: int| 0 <= i < j < rec.len() implies #[trigger] rec[i].0
            != #[trigger] rec[j].0 by {
            lemma_read_names_differ(rec, i, j);
        }
        assert forall|i: int| 0 <= i < rec.len() implies field_named(#[trigger] rec[i].0)
            is Some by {
            assert(!refused(rec, i));
        }
    } else {
        let k = first_refused(rec);
        assert(refused(rec, k));
        if field_named(rec[k].0) is Some {
            let front = rec.take(k);
            if forall|j: int| 0 <= j < k ==> rec[j].0 != rec[k].0 {
                assert forall|j: int| 0 <= j < front.len() implies front[j].0 != rec[k].0 by {
                    assert(front[j] == rec[j]);
                }
                lemma_lookup_finds_nothing(front, rec[k].0);
            }
        }
    }
}

} // verus!
