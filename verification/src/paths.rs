//! Path handling on plain strings.
//!
//! Paths are modeled as strings whose components are separated by `/`; the
//! final component is taken as the file name, and its extension is what
//! follows its last dot, provided that dot is neither the name's first
//! character nor absent.  These rules decide which files are eligible
//! rotated logs, which are compressed, which output files carry a date
//! suffix, and where a file's split output goes.

use crate::text::{check_digits, digits_at};
use vstd::prelude::*;
use vstd::string::{StrSliceExecFns, StringExecFns};

verus! {

/// The index just after the last occurrence of `c` in `p`, or 0 when `c`
/// does not occur.
pub open spec fn after_last(p: Seq<char>, c: char) -> int
    decreases p.len(),
{
    if p.len() == 0 {
        0
    } else if p.last() == c {
        p.len() as int
    } else {
        after_last(p.drop_last(), c)
    }
}

/// `after_last` names the position after the last occurrence: if nothing
/// at or beyond `i` is `c`, and `i` is 0 or follows a `c`, then it is `i`.
proof fn lemma_after_last_char(p: Seq<char>, c: char, i: int)
    requires
        0 <= i <= p.len(),
        forall|j: int| i <= j < p.len() ==> p[j] != c,
        i == 0 || p[i - 1] == c,
    ensures
        after_last(p, c) == i,
    decreases p.len(),
{
    if p.len() > 0 {
        if p.last() == c {
            assert(i == p.len());
        } else {
            assert(i < p.len());
            lemma_after_last_char(p.drop_last(), c, i);
        }
    }
}

/// Where the file name of `p` starts: just after the last `/`.
pub open spec fn name_start(p: Seq<char>) -> int {
    after_last(p, '/')
}

/// The extension of the file named by `p`: what follows the last dot of
/// its final component, provided that dot exists and does not begin the
/// component.  May be empty, for a name that ends in a dot.
pub open spec fn extension_of(p: Seq<char>) -> Option<Seq<char>> {
    let q = after_last(p, '.');
    if q >= name_start(p) + 2 {
        Some(p.subrange(q, p.len() as int))
    } else {
        None
    }
}

/// Find the index just after the last occurrence of `c` in `s`.
pub fn find_after_last(s: &str, c: char) -> (r: usize)
    ensures
        r == after_last(s@, c),
        r <= s@.len(),
{
    let n = s.unicode_len();
    let mut i = n;
    while i > 0
        invariant
            n == s@.len(),
            n <= usize::MAX,
            i <= n,
            forall|j: int| i <= j < n ==> s@[j] != c,
        decreases i,
    {
        if s.get_char(i - 1) == c {
            proof {
                lemma_after_last_char(s@, c, i as int);
            }
            return i;
        }
        i -= 1;
    }
    proof {
        lemma_after_last_char(s@, c, 0);
    }
    0
}

/// The path after `add_extension`: unchanged when the final component is
/// empty, or when it has no extension and there is nothing to add;
/// otherwise the path, a dot, and the addition.
pub open spec fn with_added_extension(p: Seq<char>, add: Seq<char>) -> Seq<char> {
    if name_start(p) < p.len() && (extension_of(p) is Some || add.len() > 0) {
        p + seq!['.'] + add
    } else {
        p
    }
}

/// Add an extension to a path: a path that already has an extension keeps
/// it and gains `.addition` after it; one without gains `addition` as its
/// extension.  A path with an empty final component, or one with no
/// extension when `addition` is empty, is left unchanged.
pub fn add_extension(path: &mut String, addition: &str)
    ensures
        final (path)@ == with_added_extension(old(path)@, addition@),
{
    let n = path.as_str().unicode_len();
    let ns = find_after_last(path.as_str(), '/');
    let q = find_after_last(path.as_str(), '.');
    if ns == n {
        return ;
    }
    let has_ext = q > ns && q - ns >= 2;
    if has_ext || !addition.is_empty() {
        proof {
            reveal_strlit(".");
        }
        path.append(".");
        path.append(addition);
        proof {
            assert(path@ =~= with_added_extension(old(path)@, addition@));
        }
    }
}

/// The file named by `p` is an eligible rotated log: its extension is one
/// or more decimal digits, as a rotation mechanism leaves them.
pub open spec fn has_numeric_extension(p: Seq<char>) -> bool {
    match extension_of(p) {
        Some(e) => e.len() > 0 && digits_at(e, 0, e.len() as int),
        None => false,
    }
}

/// Decide whether a path names an eligible rotated log file.
pub fn check_numeric_extension(p: &str) -> (r: bool)
    ensures
        r == has_numeric_extension(p@),
{
    let n = p.unicode_len();
    let ns = find_after_last(p, '/');
    let q = find_after_last(p, '.');
    if q > ns && q - ns >= 2 && q < n {
        let e = p.substring_char(q, n);
        check_digits(e, 0, n - q)
    } else {
        false
    }
}

/// The file named by `p` carries a `gz` extension.
pub open spec fn has_gz_extension(p: Seq<char>) -> bool {
    extension_of(p) == Some(seq!['g', 'z'])
}

/// Decide whether a path names a `gz`-compressed file.
pub fn check_gz_extension(p: &str) -> (r: bool)
    ensures
        r == has_gz_extension(p@),
{
    let n = p.unicode_len();
    let ns = find_after_last(p, '/');
    let q = find_after_last(p, '.');
    if q > ns && q - ns >= 2 && n - q == 2 {
        let e = p.substring_char(q, n);
        let r = e.get_char(0) == 'g' && e.get_char(1) == 'z';
        proof {
            assert(q >= name_start(p@) + 2);
            assert(extension_of(p@) == Some(p@.subrange(q as int, p@.len() as int)));
            assert(e@ == p@.subrange(q as int, p@.len() as int));
            assert(e@.len() == 2);
            if r {
                assert(e@ =~= seq!['g', 'z']);
                assert(has_gz_extension(p@));
            } else {
                assert(seq!['g', 'z'][0] == 'g' && seq!['g', 'z'][1] == 'z');
                assert(e@ != seq!['g', 'z']);
                assert(!has_gz_extension(p@));
            }
        }
        r
    } else {
        proof {
            if q > ns && q as int - ns as int >= 2 {
                assert(extension_of(p@) == Some(p@.subrange(q as int, p@.len() as int)));
                assert(p@.subrange(q as int, p@.len() as int).len() != 2);
                assert(seq!['g', 'z'].len() == 2);
            } else {
                assert(extension_of(p@) is None);
            }
        }
        false
    }
}

/// The path ends in `-YYYY-MM-DD`: a hyphen and a ten-character date, the
/// shape of the split writer's output names.
pub open spec fn has_date_suffix(p: Seq<char>) -> bool {
    &&& p.len() >= 11
    &&& p[p.len() - 11] == '-'
    &&& digits_at(p, p.len() - 10, 4)
    &&& p[p.len() - 6] == '-'
    &&& digits_at(p, p.len() - 5, 2)
    &&& p[p.len() - 3] == '-'
    &&& digits_at(p, p.len() - 2, 2)
}

/// Decide whether a path names a dated output file, one the splitting run
/// would have produced and a compression pass should take.
pub fn check_date_suffix(p: &str) -> (r: bool)
    ensures
        r == has_date_suffix(p@),
{
    let n = p.unicode_len();
    n >= 11 && p.get_char(n - 11) == '-' && check_digits(p, n - 10, 4) && p.get_char(n - 6) == '-'
        && check_digits(p, n - 5, 2) && p.get_char(n - 3) == '-' && check_digits(p, n - 2, 2)
}

/// `p` without its leading slashes.
pub open spec fn drop_slashes(p: Seq<char>) -> Seq<char>
    decreases p.len(),
{
    if p.len() > 0 && p[0] == '/' {
        drop_slashes(p.subrange(1, p.len() as int))
    } else {
        p
    }
}

/// Dropping leading slashes keeps the tail that starts at the first
/// character that is not a slash.
proof fn lemma_drop_slashes_at(p: Seq<char>, i: int)
    requires
        0 <= i <= p.len(),
        forall|j: int| 0 <= j < i ==> p[j] == '/',
        i == p.len() || p[i] != '/',
    ensures
        drop_slashes(p) == p.subrange(i, p.len() as int),
    decreases p.len(),
{
    if p.len() > 0 && p[0] == '/' {
        let p1 = p.subrange(1, p.len() as int);
        assert(i >= 1);
        lemma_drop_slashes_at(p1, i - 1);
        assert(p1.subrange(i - 1, p1.len() as int) =~= p.subrange(i, p.len() as int));
    } else {
        assert(i == 0);
        assert(p.subrange(0, p.len() as int) =~= p);
    }
}

/// `p` relative to the root `root`: what follows the root, less leading
/// slashes, provided `p` starts with the root and leaves it at a
/// component boundary.
pub open spec fn rel_to(root: Seq<char>, p: Seq<char>) -> Option<Seq<char>> {
    if root.len() <= p.len() && p.subrange(0, root.len() as int) == root && (root.len() == 0
        || root.len() == p.len() || root.last() == '/' || p[root.len() as int] == '/') {
        Some(drop_slashes(p.subrange(root.len() as int, p.len() as int)))
    } else {
        None
    }
}

/// `b` placed under the directory `a`: the two joined with a single `/`
/// between them, without adding one when `a` is empty or already ends in
/// one.
pub open spec fn join_path(a: Seq<char>, b: Seq<char>) -> Seq<char> {
    if a.len() == 0 {
        b
    } else if a.last() == '/' {
        a + b
    } else {
        a + seq!['/'] + b
    }
}

/// `p` without its extension and the dot before it, when it has one.
pub open spec fn strip_ext(p: Seq<char>) -> Seq<char> {
    let q = after_last(p, '.');
    if q >= name_start(p) + 2 {
        p.subrange(0, q - 1)
    } else {
        p
    }
}

/// Where the split output of the input file `entry` goes: the entry's
/// path relative to `inroot`, re-rooted at `outroot`, with its (numeric
/// rotation) extension stripped; none when `entry` does not lie under
/// `inroot`.
pub open spec fn output_prefix_spec(entry: Seq<char>, inroot: Seq<char>, outroot: Seq<char>) -> Option<
    Seq<char>,
> {
    match rel_to(inroot, entry) {
        Some(rel) => Some(strip_ext(join_path(outroot, rel))),
        None => None,
    }
}

/// Compute the output prefix of one input file from the input root and
/// the output root.
pub fn output_prefix(entry: &str, inroot: &str, outroot: &str) -> (r: Option<String>)
    ensures
        r.deep_view() == output_prefix_spec(entry@, inroot@, outroot@),
{
    let n = entry.unicode_len();
    let rn = inroot.unicode_len();
    if rn > n {
        return None;
    }
    let head = entry.substring_char(0, rn);
    if !str_eq(head, inroot) {
        return None;
    }
    proof {
        assert(entry@.subrange(0, rn as int) == inroot@);
    }
    let boundary = rn == 0 || rn == n || inroot.get_char(rn - 1) == '/' || entry.get_char(rn)
        == '/';
    if !boundary {
        return None;
    }
    let mut i = rn;
    while i < n && entry.get_char(i) == '/'
        invariant
            n == entry@.len(),
            n <= usize::MAX,
            rn <= i <= n,
            forall|j: int| rn <= j < i ==> entry@[j] == '/',
        decreases n - i,
    {
        i += 1;
    }
    let rel = entry.substring_char(i, n);
    proof {
        let tail = entry@.subrange(rn as int, n as int);
        assert forall|j: int| 0 <= j < i - rn implies tail[j] == '/' by {
            assert(tail[j] == entry@[rn + j]);
        }
        if i < n {
            assert(tail[i - rn] == entry@[i as int]);
        }
        lemma_drop_slashes_at(tail, i - rn);
        assert(tail.subrange(i - rn, tail.len() as int) =~= entry@.subrange(i as int, n as int));
    }
    let on = outroot.unicode_len();
    let mut joined = String::new();
    joined.append(outroot);
    if on > 0 && outroot.get_char(on - 1) != '/' {
        proof {
            reveal_strlit("/");
        }
        joined.append("/");
        proof {
            assert(joined@ =~= outroot@ + seq!['/']);
        }
    }
    joined.append(rel);
    proof {
        assert(join_path(outroot@, rel@) =~= joined@);
    }
    let ns = find_after_last(joined.as_str(), '/');
    let q = find_after_last(joined.as_str(), '.');
    if q > ns && q - ns >= 2 {
        let stripped = joined.as_str().substring_char(0, q - 1);
        Some(stripped.to_owned())
    } else {
        Some(joined)
    }
}

/// Compare two string slices character by character.
pub fn str_eq(a: &str, b: &str) -> (r: bool)
    ensures
        r == (a@ == b@),
{
    let na = a.unicode_len();
    let nb = b.unicode_len();
    if na != nb {
        return false;
    }
    let mut i: usize = 0;
    while i < na
        invariant
            na == a@.len(),
            nb == b@.len(),
            na == nb,
            i <= na,
            forall|j: int| 0 <= j < i ==> a@[j] == b@[j],
        decreases na - i,
    {
        if a.get_char(i) != b.get_char(i) {
            return false;
        }
        i += 1;
    }
    proof {
        assert(a@ =~= b@);
    }
    true
}

} // verus!
