//! Path arithmetic on plain strings: joining a root-relative path onto the
//! input root, taking the filename component of a path, and computing a
//! path's position relative to the input root.

use vstd::prelude::*;
use vstd::string::StrSliceExecFns;
use vstd::string::StringExecFns;

verus! {

/// `rel` joined onto `root` with a single `/` separator; an absolute `rel`
/// or an empty `root` stands alone.
pub open spec fn spec_join(root: Seq<char>, rel: Seq<char>) -> Seq<char> {
    if rel.len() > 0 && rel[0] == '/' {
        rel
    } else if root.len() == 0 {
        rel
    } else if root[root.len() - 1] == '/' {
        root + rel
    } else {
        root + "/"@ + rel
    }
}

/// `s` with every trailing `/` removed.
pub open spec fn spec_strip_trailing_slashes(s: Seq<char>) -> Seq<char>
    decreases s.len(),
{
    if s.len() > 0 && s[s.len() - 1] == '/' {
        spec_strip_trailing_slashes(s.take(s.len() - 1))
    } else {
        s
    }
}

/// The longest suffix of `s` free of `/`.
pub open spec fn spec_suffix_component(s: Seq<char>) -> Seq<char>
    decreases s.len(),
{
    if s.len() == 0 {
        Seq::empty()
    } else if s[s.len() - 1] == '/' {
        Seq::empty()
    } else {
        spec_suffix_component(s.take(s.len() - 1)).push(s[s.len() - 1])
    }
}

/// The filename component of `s`: its last `/`-separated component, with
/// trailing separators ignored. A path made of separators alone (or the
/// empty path) has an empty filename.
pub open spec fn spec_file_name(s: Seq<char>) -> Seq<char> {
    spec_suffix_component(spec_strip_trailing_slashes(s))
}

/// Whether `path` lies inside `root`: it extends `root` at a component
/// boundary (or is `root` itself).
pub open spec fn spec_is_under(root: Seq<char>, path: Seq<char>) -> bool {
    &&& path.len() >= root.len()
    &&& path.take(root.len() as int) == root
    &&& (path.len() == root.len() || root.len() == 0 || root[root.len() - 1] == '/'
        || path[root.len() as int] == '/')
}

/// `path` with the `root` prefix (and one following separator) removed.
pub open spec fn spec_rel_path(root: Seq<char>, path: Seq<char>) -> Seq<char> {
    let rest = path.skip(root.len() as int);
    if rest.len() > 0 && rest[0] == '/' {
        rest.skip(1)
    } else {
        rest
    }
}

/// Join `rel` onto `root`, inserting a `/` separator where one is needed.
pub fn join_path(root: &str, rel: &str) -> (r: String)
    ensures
        r@ == spec_join(root@, rel@),
{
    let rel_len = rel.unicode_len();
    if rel_len > 0 && rel.get_char(0) == '/' {
        return rel.to_owned();
    }
    let root_len = root.unicode_len();
    if root_len == 0 {
        return rel.to_owned();
    }
    let mut out = root.to_owned();
    if root.get_char(root_len - 1) != '/' {
        out.append("/");
    }
    out.append(rel);
    out
}

/// `spec_suffix_component` of a string whose suffix from `start` on is free
/// of `/`, and whose character before `start` (if any) is `/`, is that
/// suffix.
proof fn lemma_suffix_component(s: Seq<char>, start: int)
    requires
        0 <= start <= s.len(),
        forall|k: int| start <= k < s.len() ==> s[k] != '/',
        start == 0 || s[start - 1] == '/',
    ensures
        spec_suffix_component(s) == s.skip(start),
    decreases s.len(),
{
    if s.len() == start {
        if start == 0 {
            assert(spec_suffix_component(s) =~= s.skip(start));
        } else {
            assert(s[s.len() - 1] == '/');
            assert(spec_suffix_component(s) =~= s.skip(start));
        }
    } else {
        let head = s.take(s.len() - 1);
        lemma_suffix_component(head, start);
        assert(spec_suffix_component(s) == spec_suffix_component(head).push(s[s.len() - 1]));
        assert(head.skip(start).push(s[s.len() - 1]) =~= s.skip(start));
    }
}

/// Stripping trailing slashes keeps exactly the prefix before them.
proof fn lemma_strip_trailing(s: Seq<char>, end: int)
    requires
        0 <= end <= s.len(),
        forall|k: int| end <= k < s.len() ==> s[k] == '/',
        end == 0 || s[end - 1] != '/',
    ensures
        spec_strip_trailing_slashes(s) == s.take(end),
    decreases s.len(),
{
    if s.len() == end {
        assert(spec_strip_trailing_slashes(s) =~= s.take(end));
    } else {
        assert(s[s.len() - 1] == '/');
        lemma_strip_trailing(s.take(s.len() - 1), end);
        assert(s.take(s.len() - 1).take(end) =~= s.take(end));
    }
}

/// The filename component of `s`: its last `/`-separated component, with
/// trailing separators ignored.
pub fn file_name_of(s: &str) -> (r: String)
    ensures
        r@ == spec_file_name(s@),
{
    let n = s.unicode_len();
    let mut end: usize = n;
    while end > 0 && s.get_char(end - 1) == '/'
        invariant
            0 <= end <= n,
            n == s@.len(),
            forall|k: int| end <= k < n ==> s@[k] == '/',
        decreases end,
    {
        end -= 1;
    }
    proof {
        lemma_strip_trailing(s@, end as int);
    }
    let mut start: usize = 0;
    let mut i: usize = 0;
    while i < end
        invariant
            0 <= start <= i <= end <= n,
            n == s@.len(),
            forall|k: int| start <= k < i ==> s@[k] != '/',
            start == 0 || s@[start - 1] == '/',
        decreases end - i,
    {
        if s.get_char(i) == '/' {
            start = i + 1;
        }
        i += 1;
    }
    proof {
        lemma_suffix_component(s@.take(end as int), start as int);
    }
    let tail = s.substring_char(start, end);
    proof {
        assert(tail@ =~= s@.take(end as int).skip(start as int));
    }
    tail.to_owned()
}

/// The position of `path` relative to `root`: `path` with the root prefix
/// and one following separator stripped.
pub fn rel_path(root: &str, path: &str) -> (r: String)
    requires
        spec_is_under(root@, path@),
    ensures
        r@ == spec_rel_path(root@, path@),
{
    let rn = root.unicode_len();
    let pn = path.unicode_len();
    let mut start = rn;
    if pn > rn && path.get_char(rn) == '/' {
        start = rn + 1;
    }
    let tail = path.substring_char(start, pn);
    proof {
        assert(tail@ =~= spec_rel_path(root@, path@));
    }
    tail.to_owned()
}

} // verus!
