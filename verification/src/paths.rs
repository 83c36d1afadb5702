//! Path helpers: the last `/`-separated segment of a path, and joining a directory
//! and a name.

use vstd::prelude::*;

verus! {

/// Index just past the last `/` in `s` (0 when `s` holds none).
pub open spec fn segment_start(s: Seq<char>) -> int
    decreases s.len(),
{
    if s.len() == 0 {
        0
    } else if s.last() == '/' {
        s.len() as int
    } else {
        segment_start(s.drop_last())
    }
}

/// The last `/`-separated segment of `s`: what follows its last `/`, or all of `s`.
pub open spec fn last_segment(s: Seq<char>) -> Seq<char> {
    s.subrange(segment_start(s), s.len() as int)
}

pub proof fn lemma_segment_start_bounds(s: Seq<char>)
    ensures
        0 <= segment_start(s) <= s.len(),
        segment_start(s) > 0 ==> s[segment_start(s) - 1] == '/',
        forall|i: int| segment_start(s) <= i < s.len() ==> s[i] != '/',
    decreases s.len(),
{
    if s.len() > 0 && s.last() != '/' {
        let t = s.drop_last();
        lemma_segment_start_bounds(t);
        assert forall|i: int| segment_start(s) <= i < s.len() implies s[i] != '/' by {
            if i < t.len() {
                assert(t[i] == s[i]);
            }
        }
    }
}

/// The last `/`-separated segment of `path`, as `path.split("/").last()` gives it.
pub fn file_name_of(path: &str) -> (name: String)
    ensures
        name@ == last_segment(path@),
{
    broadcast use vstd::string::group_string_axioms;
    let n: usize = path.unicode_len();
    let mut start: usize = 0;
    let mut i: usize = 0;
    for c in it: path.chars()
        invariant
            n == path@.len(),
            it.seq() == path@,
            i == it.index(),
            start as int == segment_start(path@.subrange(0, i as int)),
    {
        proof {
            let t = path@.subrange(0, i as int + 1);
            assert(t.drop_last() =~= path@.subrange(0, i as int));
        }
        if c == '/' {
            start = i + 1;
        }
        i = i + 1;
    }
    proof {
        assert(path@.subrange(0, n as int) =~= path@);
        lemma_segment_start_bounds(path@);
    }
    let seg = path.substring_char(start, n);
    String::from_str(seg)
}

/// `dir` and `name` joined by one `/`.
pub open spec fn joined(dir: Seq<char>, name: Seq<char>) -> Seq<char> {
    dir + seq!['/'] + name
}

/// `name` holds no `/`.
pub open spec fn is_plain_name(name: Seq<char>) -> bool {
    forall|i: int| 0 <= i < name.len() ==> name[i] != '/'
}

/// `dir`, a `/` and `name`, as `dir + "/" + name` (and `format!("{}/{}", dir, name)`) give it.
pub fn join_path(dir: &str, name: &str) -> (path: String)
    ensures
        path@ == joined(dir@, name@),
{
    let slash = "/";
    proof {
        reveal_strlit("/");
    }
    let base = String::from_str(dir);
    let with_slash = base.concat(slash);
    with_slash.concat(name)
}

proof fn lemma_segment_start_after_slash(p: Seq<char>, t: Seq<char>)
    requires
        p.len() > 0,
        p.last() == '/',
        is_plain_name(t),
    ensures
        segment_start(p + t) == p.len(),
    decreases t.len(),
{
    if t.len() == 0 {
        assert(p + t =~= p);
        assert(p.drop_last() + seq!['/'] =~= p);
    } else {
        let s = p + t;
        assert(s.last() == t.last());
        assert(s.drop_last() =~= p + t.drop_last());
        lemma_segment_start_after_slash(p, t.drop_last());
    }
}

/// The last segment of a path made by joining a directory and a name holding no `/`
/// is that name.
pub proof fn lemma_last_segment_of_joined(dir: Seq<char>, name: Seq<char>)
    requires
        is_plain_name(name),
    ensures
        last_segment(joined(dir, name)) == name,
{
    let p = dir + seq!['/'];
    assert(joined(dir, name) =~= p + name);
    lemma_segment_start_after_slash(p, name);
    assert((p + name).subrange(p.len() as int, (p + name).len() as int) =~= name);
}

/// The last segment of any path holds no `/`, and taking it again changes nothing.
pub proof fn lemma_last_segment_is_plain(path: Seq<char>)
    ensures
        is_plain_name(last_segment(path)),
        last_segment(last_segment(path)) == last_segment(path),
{
    lemma_segment_start_bounds(path);
    let seg = last_segment(path);
    assert forall|i: int| 0 <= i < seg.len() implies seg[i] != '/' by {
        assert(seg[i] == path[segment_start(path) + i]);
    }
    lemma_segment_start_of_plain(seg);
    assert(seg.subrange(0, seg.len() as int) =~= seg);
}

proof fn lemma_segment_start_of_plain(s: Seq<char>)
    requires
        is_plain_name(s),
    ensures
        segment_start(s) == 0,
    decreases s.len(),
{
    if s.len() > 0 {
        lemma_segment_start_of_plain(s.drop_last());
    }
}

} // verus!
