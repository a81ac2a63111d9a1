//! Path-name helpers for vault resources: ciphertext files carry an
//! encryption extension on disk, and the logical resource name is the path
//! with that extension stripped.
//!
//! Paths are plain strings here; the separator is `/`, and a file name's
//! extension begins at its last dot — a dot that leads the file name does
//! not begin an extension.

use vstd::prelude::*;

verus! {

/// Whether `s` is where the file name begins: just after the last `/`, or
/// the start of the path when it has none.
pub open spec fn is_file_name_start(p: Seq<char>, s: int) -> bool {
    &&& 0 <= s <= p.len()
    &&& (s == 0 || p[s - 1] == '/')
    &&& forall|j: int| s <= j < p.len() ==> p[j] != '/'
}

/// Where the file name begins; exactly one position qualifies.
pub open spec fn file_name_start(p: Seq<char>) -> int {
    choose|s: int| is_file_name_start(p, s)
}

/// Whether `c` is where the extension is cut off: the file name's last dot
/// (leading dot excluded), or the path's end when the name has no
/// extension. `s` is where the file name begins.
pub open spec fn is_strip_point(p: Seq<char>, s: int, c: int) -> bool {
    &&& s <= c <= p.len()
    &&& (c < p.len() ==> p[c] == '.' && c > s)
    &&& forall|j: int| s < j < p.len() && c < j ==> p[j] != '.'
    &&& (c == p.len() ==> forall|j: int| s < j < p.len() ==> p[j] != '.')
}

/// Where the extension is cut off; exactly one position qualifies.
pub open spec fn strip_point(p: Seq<char>) -> int {
    choose|c: int| is_strip_point(p, file_name_start(p), c)
}

/// Whether the path has a file name at all (a nonempty last component);
/// stripping an extension demands one.
pub open spec fn has_file_name(p: Seq<char>) -> bool {
    exists|s: int| is_file_name_start(p, s) && s < p.len()
}

/// Two qualifying file-name starts are the same position.
proof fn lemma_file_name_start_unique(p: Seq<char>, s1: int, s2: int)
    requires
        is_file_name_start(p, s1),
        is_file_name_start(p, s2),
    ensures
        s1 == s2,
{
    if s1 < s2 {
        assert(p[s2 - 1] == '/');
        assert(false);
    }
    if s2 < s1 {
        assert(p[s1 - 1] == '/');
        assert(false);
    }
}

/// Two qualifying strip points are the same position.
proof fn lemma_strip_point_unique(p: Seq<char>, s: int, c1: int, c2: int)
    requires
        is_strip_point(p, s, c1),
        is_strip_point(p, s, c2),
    ensures
        c1 == c2,
{
    if c1 < c2 {
        if c2 < p.len() {
            assert(p[c2] == '.');
            assert(false);
        } else {
            assert(p[c1] == '.');
            assert(false);
        }
    }
    if c2 < c1 {
        if c1 < p.len() {
            assert(p[c1] == '.');
            assert(false);
        } else {
            assert(p[c2] == '.');
            assert(false);
        }
    }
}

/// Strips the encryption extension from a path: the directory part is kept,
/// and the file name loses its last dot and what follows it. A file name
/// without an extension, or whose only dot leads it, is kept whole.
pub fn strip_ext(p: &String) -> (r: String)
    requires
        has_file_name(p@),
    ensures
        r@ == p@.take(strip_point(p@)),
        is_file_name_start(p@, file_name_start(p@)),
        is_strip_point(p@, file_name_start(p@), strip_point(p@)),
{
    let ps = p.as_str();
    let n = ps.unicode_len();
    let mut name_start: usize = 0;
    let mut i: usize = 0;
    while i < n
        invariant
            n == p@.len(),
            ps@ == p@,
            i <= n,
            name_start <= i,
            name_start == 0 || p@[name_start - 1] == '/',
            forall|j: int| name_start <= j < i ==> p@[j] != '/',
        decreases n - i,
    {
        if ps.get_char(i) == '/' {
            name_start = i + 1;
        }
        i += 1;
    }
    proof {
        assert(is_file_name_start(p@, name_start as int));
        lemma_file_name_start_unique(p@, name_start as int, file_name_start(p@));
    }
    let mut last_dot: usize = n;
    let mut k: usize = 0;
    while k < n
        invariant
            n == p@.len(),
            ps@ == p@,
            k <= n,
            is_file_name_start(p@, name_start as int),
            last_dot == n || (last_dot < k && p@[last_dot as int] == '.' && last_dot
                > name_start),
            forall|j: int| name_start < j < k && last_dot < j ==> p@[j] != '.',
            last_dot == n ==> forall|j: int| name_start < j < k ==> p@[j] != '.',
        decreases n - k,
    {
        if ps.get_char(k) == '.' && k > name_start {
            last_dot = k;
        }
        k += 1;
    }
    proof {
        assert(is_strip_point(p@, name_start as int, last_dot as int));
        lemma_strip_point_unique(
            p@,
            name_start as int,
            last_dot as int,
            strip_point(p@),
        );
        assert(p@.subrange(0, last_dot as int) =~= p@.take(last_dot as int));
    }
    let stem = ps.substring_char(0, last_dot);
    stem.to_owned()
}

} // verus!
