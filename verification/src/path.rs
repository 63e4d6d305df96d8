//! Paths as text, under POSIX conventions.
//!
//! A path is a sequence of characters. `/` separates its segments. Empty
//! segments and `.` segments do not name anything, so two rooted paths that
//! differ only in them name the same place.

use vstd::prelude::*;
use vstd::string::*;

verus! {

/// The separator between the segments of a path.
pub open spec fn sep() -> char {
    '/'
}

/// A path is rooted when it begins with the separator.
pub open spec fn has_root(p: Seq<char>) -> bool {
    p.len() > 0 && p[0] == sep()
}

/// What results from pushing the fragment `frag` onto the path `base`.
///
/// A rooted fragment replaces the base. Any other fragment is appended to it,
/// after a separator unless the base is empty or already ends in one.
pub open spec fn join(base: Seq<char>, frag: Seq<char>) -> Seq<char> {
    if has_root(frag) {
        frag
    } else if base.len() == 0 || base.last() == sep() {
        base + frag
    } else {
        base + seq![sep()] + frag
    }
}

/// The index of the first separator in `p`, or the length of `p` where it
/// holds none.
pub open spec fn first_sep(p: Seq<char>) -> nat
    decreases p.len(),
{
    if p.len() == 0 || p[0] == sep() {
        0
    } else {
        1 + first_sep(p.skip(1))
    }
}

/// A segment that names nothing: the empty one, and `.`.
pub open spec fn names_nothing(seg: Seq<char>) -> bool {
    seg.len() == 0 || (seg.len() == 1 && seg[0] == '.')
}

/// The segments of `p` that name something, in order.
pub open spec fn segments(p: Seq<char>) -> Seq<Seq<char>>
    decreases p.len(),
{
    if p.len() == 0 {
        Seq::empty()
    } else {
        let i = first_sep(p) as int;
        let head = p.take(i);
        let tail = if i < p.len() {
            segments(p.skip(i + 1))
        } else {
            Seq::empty()
        };
        if names_nothing(head) {
            tail
        } else {
            seq![head] + tail
        }
    }
}

/// `start` and `end` bound the first segment of `p` that names something:
/// nothing before `start` names anything, `start` begins `p` or follows a
/// separator, `end` ends `p` or is a separator, none stands between them, and
/// what stands between them names something.
pub open spec fn bounds_leading_segment(p: Seq<char>, start: int, end: int) -> bool {
    &&& 0 <= start < end <= p.len()
    &&& segments(p.take(start)).len() == 0
    &&& start == 0 || p[start - 1] == sep()
    &&& end == p.len() || p[end] == sep()
    &&& forall|k: int| start <= k < end ==> p[k] != sep()
    &&& !names_nothing(p.subrange(start, end))
}

/// `p` names the root of the file system: it is rooted and none of its
/// segments names anything.
pub open spec fn is_root(p: Seq<char>) -> bool {
    has_root(p) && segments(p).len() == 0
}

/// `p` is the directory `dir` of the root, or lies below it: it is rooted and
/// the first of its segments that names something is `dir`.
pub open spec fn begins_with_dir(p: Seq<char>, dir: Seq<char>) -> bool {
    has_root(p) && segments(p).len() > 0 && segments(p)[0] == dir
}

/// `first_sep` is the one index with no separator before it and with a
/// separator, or the end of the path, at it.
pub proof fn lemma_first_sep_is(p: Seq<char>, j: int)
    requires
        0 <= j <= p.len(),
        forall|k: int| 0 <= k < j ==> p[k] != sep(),
        j == p.len() || p[j] == sep(),
    ensures
        first_sep(p) == j,
    decreases j,
{
    if j > 0 {
        lemma_first_sep_is(p.skip(1), j - 1);
    }
}

/// What `first_sep` finds.
pub proof fn lemma_first_sep_found(p: Seq<char>)
    ensures
        first_sep(p) <= p.len(),
        forall|k: int| 0 <= k < first_sep(p) ==> p[k] != sep(),
        first_sep(p) < p.len() ==> p[first_sep(p) as int] == sep(),
    decreases p.len(),
{
    if p.len() > 0 && p[0] != sep() {
        let q = p.skip(1);
        lemma_first_sep_found(q);
        assert forall|k: int| 0 <= k < first_sep(p) implies p[k] != sep() by {
            if k > 0 {
                assert(p[k] == q[k - 1]);
            }
        }
    }
}

/// A separator between two paths keeps the segments of both apart: the
/// segments of the whole are those of the first, then those of the second.
pub proof fn lemma_segments_around_sep(a: Seq<char>, b: Seq<char>)
    ensures
        segments(a + seq![sep()] + b) =~= segments(a) + segments(b),
    decreases a.len(),
{
    let s = a + seq![sep()] + b;
    let i = first_sep(a) as int;
    lemma_first_sep_found(a);
    assert(first_sep(s) == i) by {
        assert forall|k: int| 0 <= k < i implies s[k] != sep() by {
            assert(s[k] == a[k]);
        }
        lemma_first_sep_is(s, i);
    }
    assert(s.take(i) =~= a.take(i));
    if i < a.len() {
        assert(s.skip(i + 1) =~= a.skip(i + 1) + seq![sep()] + b);
        lemma_segments_around_sep(a.skip(i + 1), b);
    } else {
        assert(s.skip(i + 1) =~= b);
        if a.len() == 0 {
            assert(names_nothing(a.take(i)));
        }
    }
}

/// Pushing a fragment that is not rooted onto a path adds the fragment's
/// segments after those of the path.
pub proof fn lemma_segments_of_join(base: Seq<char>, frag: Seq<char>)
    requires
        !has_root(frag),
    ensures
        segments(join(base, frag)) =~= segments(base) + segments(frag),
{
    if base.len() == 0 {
        assert(base + frag =~= frag);
    } else if base.last() == sep() {
        let front = base.drop_last();
        assert(base =~= front + seq![sep()] + Seq::<char>::empty());
        assert(base + frag =~= front + seq![sep()] + frag);
        lemma_segments_around_sep(front, Seq::empty());
        lemma_segments_around_sep(front, frag);
    } else {
        lemma_segments_around_sep(base, frag);
    }
}

/// A rooted path written behind another path keeps the segments of both
/// apart: the segments of the whole are those of the first, then those of the
/// rooted one.
pub proof fn lemma_segments_before_rooted(front: Seq<char>, p: Seq<char>)
    requires
        has_root(p),
    ensures
        segments(front + p) =~= segments(front) + segments(p),
{
    let rest = p.skip(1);
    let none = Seq::<char>::empty();
    assert(p =~= none + seq![sep()] + rest);
    assert(front + p =~= front + seq![sep()] + rest);
    lemma_segments_around_sep(front, rest);
    lemma_segments_around_sep(none, rest);
}

/// A path whose only segment names nothing has no segment that names
/// anything.
pub proof fn lemma_segments_of_nothing(seg: Seq<char>)
    requires
        names_nothing(seg),
    ensures
        segments(seg).len() == 0,
{
    if seg.len() == 1 {
        lemma_first_sep_is(seg, 1);
        assert(seg.take(1) =~= seg);
    }
}

/// A segment that names something, with its bounds in `p`, is a segment of
/// every beginning of `p` that reaches past it.
pub proof fn lemma_segment_is_named(p: Seq<char>, start: int, end: int, upto: int)
    requires
        0 <= start < end < upto <= p.len(),
        start == 0 || p[start - 1] == sep(),
        p[end] == sep(),
        forall|k: int| start <= k < end ==> p[k] != sep(),
        !names_nothing(p.subrange(start, end)),
    ensures
        segments(p.take(upto)).len() > 0,
{
    let seg = p.subrange(start, end);
    let none = Seq::<char>::empty();
    assert(segments(seg) =~= seq![seg]) by {
        lemma_first_sep_is(seg, seg.len() as int);
        assert(seg.take(seg.len() as int) =~= seg);
    }
    if start == 0 {
        assert(p.take(end) =~= seg);
    } else {
        let front = p.take(start - 1);
        assert(p.take(end) =~= front + seq![sep()] + seg);
        lemma_segments_around_sep(front, seg);
    }
    assert(p.take(upto) =~= p.take(end) + seq![sep()] + p.subrange(end + 1, upto));
    lemma_segments_around_sep(p.take(end), p.subrange(end + 1, upto));
}

/// A path has one first segment that names something, at one place.
pub proof fn lemma_leading_segment_is_one(p: Seq<char>, a: (int, int), b: (int, int))
    requires
        bounds_leading_segment(p, a.0, a.1),
        bounds_leading_segment(p, b.0, b.1),
    ensures
        a == b,
{
    if a.0 < b.0 {
        assert(a.1 < b.0) by {
            if a.1 >= b.0 {
                assert(p[b.0 - 1] != sep());
            }
        }
        lemma_segment_is_named(p, a.0, a.1, b.0);
    } else if b.0 < a.0 {
        assert(b.1 < a.0) by {
            if b.1 >= a.0 {
                assert(p[a.0 - 1] != sep());
            }
        }
        lemma_segment_is_named(p, b.0, b.1, a.0);
    } else if a.1 < b.1 {
        assert(p[a.1] != sep());
    } else if b.1 < a.1 {
        assert(p[b.1] != sep());
    }
}

/// A path stays rooted when a fragment is pushed onto it.
pub proof fn lemma_join_keeps_root(base: Seq<char>, frag: Seq<char>)
    requires
        has_root(base),
    ensures
        has_root(join(base, frag)),
{
}

/// A path stays below a directory of the root when a fragment that is not
/// rooted is pushed onto it.
pub proof fn lemma_join_stays_below(base: Seq<char>, frag: Seq<char>, dir: Seq<char>)
    requires
        begins_with_dir(base, dir),
        !has_root(frag),
    ensures
        begins_with_dir(join(base, frag), dir),
{
    lemma_segments_of_join(base, frag);
}

/// The root alone has no segment that names anything.
pub proof fn lemma_root_has_no_segments()
    ensures
        is_root(seq![sep()]),
{
    let none = Seq::<char>::empty();
    lemma_segments_around_sep(none, none);
    assert(none + seq![sep()] + none =~= seq![sep()]);
}

/// A name behind a separator is the one segment of that path: the path is a
/// directory of the root.
pub proof fn lemma_dir_of_root(dir: Seq<char>)
    requires
        !names_nothing(dir),
        forall|k: int| 0 <= k < dir.len() ==> dir[k] != sep(),
    ensures
        segments(seq![sep()] + dir) =~= seq![dir],
        begins_with_dir(seq![sep()] + dir, dir),
{
    lemma_segments_around_sep(Seq::empty(), dir);
    assert(Seq::<char>::empty() + seq![sep()] + dir =~= seq![sep()] + dir);
    lemma_first_sep_is(dir, dir.len() as int);
    assert(dir.take(dir.len() as int) =~= dir);
}

/// Tells whether `p` is rooted.
pub fn is_rooted(p: &str) -> (r: bool)
    ensures
        r == has_root(p@),
{
    !p.is_empty() && p.get_char(0) == '/'
}

/// Pushes the fragment `frag` onto the path `base` and returns the result.
pub fn join_paths(base: &str, frag: &str) -> (r: String)
    ensures
        r@ == join(base@, frag@),
{
    if is_rooted(frag) {
        return String::from_str(frag);
    }
    let n: usize = base.unicode_len();
    let mut r: String = String::from_str(base);
    if n > 0 && base.get_char(n - 1) != '/' {
        proof {
            reveal_strlit("/");
            assert("/"@ =~= seq![sep()]);
        }
        r.append("/");
    }
    r.append(frag);
    r
}

/// Finds the first segment of `p` that names something.
///
/// Returns the index of its first character and the index after its last one,
/// or the length of `p` twice where no segment names anything.
pub fn leading_segment(p: &str) -> (r: (usize, usize))
    ensures
        r.0 <= r.1 <= p@.len(),
        segments(p@).len() == 0 <==> r.0 == r.1,
        r.0 == r.1 ==> r.0 == p@.len(),
        r.0 < r.1 ==> bounds_leading_segment(p@, r.0 as int, r.1 as int),
        r.0 < r.1 ==> segments(p@)[0] == p@.subrange(r.0 as int, r.1 as int),
{
    let n: usize = p.unicode_len();
    let mut start: usize = 0;
    assert(p@.skip(0) =~= p@);
    while start < n
        invariant
            n == p@.len(),
            start <= n,
            segments(p@) == segments(p@.skip(start as int)),
            segments(p@.take(start as int)).len() == 0,
            start == 0 || p@[start - 1] == sep(),
        decreases n - start,
    {
        let ghost rest = p@.skip(start as int);
        let mut end: usize = start;
        while end < n && p.get_char(end) != '/'
            invariant
                n == p@.len(),
                start <= end <= n,
                forall|k: int| start <= k < end ==> p@[k] != sep(),
            decreases n - end,
        {
            end += 1;
        }
        let ghost seg = p@.subrange(start as int, end as int);
        proof {
            assert forall|k: int| 0 <= k < end - start implies rest[k] != sep() by {
                assert(rest[k] == p@[start + k]);
            }
            lemma_first_sep_is(rest, end - start);
            assert(rest.take(end - start) =~= seg);
            if end < n {
                assert(rest.skip(end - start + 1) =~= p@.skip(end + 1));
            }
        }
        if end == start || (end == start + 1 && p.get_char(start) == '.') {
            proof {
                lemma_nothing_named_up_to(p@, start as int, end as int);
            }
            if end == n {
                assert(p@.take(n as int) =~= p@);
                return (n, n);
            }
            proof {
                let none = Seq::<char>::empty();
                assert(p@.take(end + 1) =~= p@.take(end as int) + seq![sep()] + none);
                lemma_segments_around_sep(p@.take(end as int), none);
            }
            start = end + 1;
        } else {
            return (start, end);
        }
    }
    proof {
        assert(p@.skip(start as int).len() == 0);
        assert(p@.take(start as int) =~= p@);
    }
    (n, n)
}

/// Where nothing is named before `start`, which begins a segment, and the
/// text from `start` to `end` names nothing and holds no separator, nothing
/// is named before `end`.
proof fn lemma_nothing_named_up_to(p: Seq<char>, start: int, end: int)
    requires
        0 <= start <= end <= p.len(),
        segments(p.take(start)).len() == 0,
        start == 0 || p[start - 1] == sep(),
        names_nothing(p.subrange(start, end)),
    ensures
        segments(p.take(end)).len() == 0,
{
    let seg = p.subrange(start, end);
    lemma_segments_of_nothing(seg);
    if start == 0 {
        assert(p.take(end) =~= seg);
    } else {
        let front = p.take(start - 1);
        let none = Seq::<char>::empty();
        assert(p.take(start) =~= front + seq![sep()] + none);
        assert(p.take(end) =~= front + seq![sep()] + seg);
        lemma_segments_around_sep(front, none);
        lemma_segments_around_sep(front, seg);
    }
}

/// Tells whether `p` names the root of the file system.
pub fn is_root_dir(p: &str) -> (r: bool)
    ensures
        r == is_root(p@),
{
    if !is_rooted(p) {
        return false;
    }
    let (start, end) = leading_segment(p);
    start == end
}

/// Tells whether `p` is the directory `dir` of the root, or lies below it.
pub fn is_below_dir(p: &str, dir: &str) -> (r: bool)
    ensures
        r == begins_with_dir(p@, dir@),
{
    if !is_rooted(p) {
        return false;
    }
    let (start, end) = leading_segment(p);
    if start == end {
        return false;
    }
    same_text(p.substring_char(start, end), dir)
}

/// Tells whether `a` and `b` hold the same characters.
pub fn same_text(a: &str, b: &str) -> (r: bool)
    ensures
        r == (a@ == b@),
{
    let len: usize = a.unicode_len();
    if len != b.unicode_len() {
        return false;
    }
    let mut i: usize = 0;
    while i < len
        invariant
            len == a@.len(),
            len == b@.len(),
            i <= len,
            forall|k: int| 0 <= k < i ==> a@[k] == b@[k],
        decreases len - i,
    {
        if a.get_char(i) != b.get_char(i) {
            return false;
        }
        i += 1;
    }
    assert(a@ =~= b@);
    true
}

} // verus!
