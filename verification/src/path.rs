//! Unix paths held as strings: the last component, its extension, the
//! parent and joining, with the meaning that `std::path::Path` gives them.
//!
//! A path is split at `/`.  A leading `/` is the root; a leading `.` that
//! stands alone or before a `/` (in a path without root) is the current
//! directory.  What follows is the body.  Empty segments and `.` segments
//! of the body are skipped when the components are read from the back.

use vstd::prelude::*;
use crate::text::{chars_of, string_from_chars};

verus! {

/// Whether the path starts at the root.
pub open spec fn has_root(p: Seq<char>) -> bool {
    p.len() > 0 && p[0] == '/'
}

/// Whether the path starts with a current-directory component.
pub open spec fn has_cur_dir(p: Seq<char>) -> bool {
    !has_root(p) && p.len() > 0 && p[0] == '.' && (p.len() == 1 || p[1] == '/')
}

/// Where the body of the path starts.
pub open spec fn body_start(p: Seq<char>) -> int {
    if has_root(p) || has_cur_dir(p) { 1 } else { 0 }
}

/// The index of the last `/` in `p[b..end]`, or -1 when there is none.
pub open spec fn rfind_sep(p: Seq<char>, b: int, end: int) -> int
    decreases end - b,
{
    if end <= b {
        -1
    } else if p[end - 1] == '/' {
        end - 1
    } else {
        rfind_sep(p, b, end - 1)
    }
}

/// Where the last segment of the body of `p[..n]` starts.
pub open spec fn last_seg_start(p: Seq<char>, b: int, n: int) -> int {
    let j = rfind_sep(p, b, n);
    if j >= 0 { j + 1 } else { b }
}

/// The length of `p[..n]` once its last segment, with the separator
/// before it, is taken away.
pub open spec fn cut_len(p: Seq<char>, b: int, n: int) -> int {
    let j = rfind_sep(p, b, n);
    if j >= 0 { j } else { b }
}

/// Whether the last segment of the body of `p[..n]` is empty or `.`.
pub open spec fn skippable(p: Seq<char>, b: int, n: int) -> bool {
    let s = last_seg_start(p, b, n);
    n == s || (n == s + 1 && p[s] == '.')
}

pub proof fn lemma_rfind_sep(p: Seq<char>, b: int, end: int)
    requires
        0 <= b,
        end <= p.len(),
    ensures
        rfind_sep(p, b, end) == -1 || (b <= rfind_sep(p, b, end) < end && p[rfind_sep(p, b, end)]
            == '/'),
        forall|k: int| rfind_sep(p, b, end) < k < end && b <= k ==> p[k] != '/',
    decreases end - b,
{
    if end > b && p[end - 1] != '/' {
        lemma_rfind_sep(p, b, end - 1);
    }
}

/// The length of `p[..n]` once its trailing empty and `.` segments are
/// taken away (never shorter than `b`).
pub open spec fn trimmed_len(p: Seq<char>, b: int, n: int) -> int
    decreases n,
{
    if 0 <= b < n && n <= p.len() && skippable(p, b, n) {
        proof {
            lemma_rfind_sep(p, b, n);
        }
        trimmed_len(p, b, cut_len(p, b, n))
    } else {
        n
    }
}

/// The last component of the path, if it is a name: `Path::file_name`.
pub open spec fn path_file_name(p: Seq<char>) -> Option<Seq<char>> {
    let b = body_start(p);
    let n = trimmed_len(p, b, p.len() as int);
    if n > b {
        let s = p.subrange(last_seg_start(p, b, n), n);
        if s == seq!['.', '.'] {
            None
        } else {
            Some(s)
        }
    } else {
        None
    }
}

/// The path without its last component: `Path::parent`.
pub open spec fn path_parent(p: Seq<char>) -> Option<Seq<char>> {
    let b = body_start(p);
    let n = trimmed_len(p, b, p.len() as int);
    if n > b {
        Some(p.subrange(0, trimmed_len(p, b, cut_len(p, b, n))))
    } else if has_cur_dir(p) {
        Some(Seq::empty())
    } else {
        None
    }
}

/// The index of the last `.` in `s`, or -1.
pub open spec fn rfind_dot(s: Seq<char>, end: int) -> int
    decreases end,
{
    if end <= 0 {
        -1
    } else if s[end - 1] == '.' {
        end - 1
    } else {
        rfind_dot(s, end - 1)
    }
}

/// The extension of a file name: what follows its last `.`, unless that
/// `.` is the first character or there is none.
pub open spec fn name_extension(name: Seq<char>) -> Option<Seq<char>> {
    let d = rfind_dot(name, name.len() as int);
    if d > 0 {
        Some(name.subrange(d + 1, name.len() as int))
    } else {
        None
    }
}

/// The extension of the path's file name: `Path::extension`.
pub open spec fn path_extension(p: Seq<char>) -> Option<Seq<char>> {
    match path_file_name(p) {
        Some(name) => name_extension(name),
        None => None,
    }
}

/// `base` with `name` appended: `Path::join`.  A rooted `name` replaces
/// the base; otherwise a `/` goes between them unless `base` is empty or
/// already ends with one.
pub open spec fn path_join(base: Seq<char>, name: Seq<char>) -> Seq<char> {
    if has_root(name) {
        name
    } else if base.len() > 0 && base.last() != '/' {
        base + seq!['/'] + name
    } else {
        base + name
    }
}

/// A name that a path can end in: not empty, without `/`, and neither
/// `.` nor `..`.
pub open spec fn is_plain_name(n: Seq<char>) -> bool {
    &&& n.len() > 0
    &&& !n.contains('/')
    &&& n != seq!['.']
    &&& n != seq!['.', '.']
}

proof fn lemma_rfind_sep_at(p: Seq<char>, b: int, end: int, k: int)
    requires
        0 <= b <= k < end <= p.len(),
        p[k] == '/',
        forall|j: int| k < j < end ==> p[j] != '/',
    ensures
        rfind_sep(p, b, end) == k,
    decreases end - k,
{
    if end - 1 > k {
        lemma_rfind_sep_at(p, b, end - 1, k);
    }
}

proof fn lemma_rfind_sep_none(p: Seq<char>, b: int, end: int)
    requires
        0 <= b,
        end <= p.len(),
        forall|j: int| b <= j < end ==> p[j] != '/',
    ensures
        rfind_sep(p, b, end) == -1,
    decreases end - b,
{
    if end > b {
        lemma_rfind_sep_none(p, b, end - 1);
    }
}

proof fn lemma_join_shape(base: Seq<char>, name: Seq<char>)
    requires
        is_plain_name(name),
    ensures
        ({
            let p = path_join(base, name);
            let s0 = p.len() - name.len();
            &&& 0 <= s0
            &&& p.subrange(s0, p.len() as int) == name
            &&& s0 == 0 ==> p == name
            &&& s0 > 0 ==> p[s0 - 1] == '/'
            &&& forall|j: int| s0 <= j < p.len() ==> p[j] != '/'
        }),
{
    let p = path_join(base, name);
    let s0 = p.len() - name.len();
    assert(!has_root(name)) by {
        if name[0] == '/' {
            assert(name.contains('/'));
        }
    }
    if base.len() > 0 && base.last() != '/' {
        assert(p == base + seq!['/'] + name);
        assert(p[s0 - 1] == '/');
    } else {
        assert(p == base + name);
        if base.len() > 0 {
            assert(p[s0 - 1] == base.last());
        } else {
            assert(p =~= name);
        }
    }
    assert(p.subrange(s0, p.len() as int) =~= name);
    assert forall|j: int| s0 <= j < p.len() implies p[j] != '/' by {
        assert(p[j] == name[j - s0]);
        if p[j] == '/' {
            assert(name.contains('/'));
        }
    }
}

/// Joining a plain name to a path gives a path whose file name is that
/// name.
pub proof fn lemma_join_file_name(base: Seq<char>, name: Seq<char>)
    requires
        is_plain_name(name),
    ensures
        path_file_name(path_join(base, name)) == Some(name),
{
    lemma_join_shape(base, name);
    let p = path_join(base, name);
    let s0 = p.len() - name.len();
    let b = body_start(p);
    if s0 == 0 {
        assert(!has_cur_dir(p)) by {
            if has_cur_dir(p) {
                if p.len() == 1 {
                    assert(name =~= seq!['.']);
                } else {
                    assert(name[1] == '/');
                    assert(name.contains('/'));
                }
            }
        }
        assert(!has_root(p)) by {
            if has_root(p) {
                assert(name[0] == '/');
                assert(name.contains('/'));
            }
        }
        lemma_rfind_sep_none(p, b, p.len() as int);
    } else {
        if s0 - 1 >= b {
            lemma_rfind_sep_at(p, b, p.len() as int, s0 - 1);
        } else {
            lemma_rfind_sep_none(p, b, p.len() as int);
        }
    }
    assert(last_seg_start(p, b, p.len() as int) == s0);
    assert(!skippable(p, b, p.len() as int)) by {
        if p.len() == s0 + 1 && p[s0] == '.' {
            assert(name[0] == p[s0]);
            assert(name =~= seq!['.']);
        }
    }
    assert(trimmed_len(p, b, p.len() as int) == p.len());
}

/// A file name that a path has is a plain name.
pub proof fn lemma_file_name_plain(p: Seq<char>)
    requires
        path_file_name(p) is Some,
    ensures
        is_plain_name(path_file_name(p)->0),
{
    let b = body_start(p);
    let n = trimmed_len(p, b, p.len() as int);
    lemma_trimmed_len(p, b, p.len() as int);
    lemma_rfind_sep(p, b, n);
    let s = last_seg_start(p, b, n);
    let name = p.subrange(s, n);
    assert(!name.contains('/')) by {
        if name.contains('/') {
            let j = choose|j: int| 0 <= j < name.len() && name[j] == '/';
            assert(p[s + j] == '/');
        }
    }
    assert(name.len() > 0);
    assert(name != seq!['.']) by {
        if name == seq!['.'] {
            assert(p[s] == name[0]);
        }
    }
}

proof fn lemma_trimmed_len(p: Seq<char>, b: int, n: int)
    requires
        0 <= b <= n <= p.len(),
    ensures
        b <= trimmed_len(p, b, n) <= n,
        trimmed_len(p, b, n) > b ==> !skippable(p, b, trimmed_len(p, b, n)),
    decreases n,
{
    if b < n && skippable(p, b, n) {
        lemma_rfind_sep(p, b, n);
        lemma_trimmed_len(p, b, cut_len(p, b, n));
    }
}

/// The view of an optional string.
pub open spec fn opt_view(o: Option<String>) -> Option<Seq<char>> {
    match o {
        Some(s) => Some(s@),
        None => None,
    }
}

fn rfind_sep_exec(p: &Vec<char>, b: usize, end: usize) -> (r: Option<usize>)
    requires
        b <= end <= p@.len(),
    ensures
        match r {
            Some(i) => rfind_sep(p@, b as int, end as int) == i as int,
            None => rfind_sep(p@, b as int, end as int) == -1,
        },
{
    let mut k = end;
    while k > b
        invariant
            b <= k <= end <= p@.len(),
            rfind_sep(p@, b as int, end as int) == rfind_sep(p@, b as int, k as int),
        decreases k,
    {
        if p[k - 1] == '/' {
            return Some(k - 1);
        }
        k = k - 1;
    }
    None
}

fn cut_len_exec(p: &Vec<char>, b: usize, n: usize) -> (r: usize)
    requires
        b <= n <= p@.len(),
    ensures
        r as int == cut_len(p@, b as int, n as int),
        b <= r <= n,
        b < n ==> r < n,
{
    proof {
        lemma_rfind_sep(p@, b as int, n as int);
    }
    match rfind_sep_exec(p, b, n) {
        Some(j) => j,
        None => b,
    }
}

fn last_seg_start_exec(p: &Vec<char>, b: usize, n: usize) -> (r: usize)
    requires
        b <= n <= p@.len(),
    ensures
        r as int == last_seg_start(p@, b as int, n as int),
        b <= r <= n,
{
    proof {
        lemma_rfind_sep(p@, b as int, n as int);
    }
    match rfind_sep_exec(p, b, n) {
        Some(j) => j + 1,
        None => b,
    }
}

fn trimmed_len_exec(p: &Vec<char>, b: usize, n: usize) -> (r: usize)
    requires
        b <= n <= p@.len(),
    ensures
        r as int == trimmed_len(p@, b as int, n as int),
        b <= r <= n,
{
    let mut m = n;
    while b < m
        invariant
            b <= m <= n <= p@.len(),
            trimmed_len(p@, b as int, n as int) == trimmed_len(p@, b as int, m as int),
        decreases m,
    {
        let s = last_seg_start_exec(p, b, m);
        let skip = m == s || (m == s + 1 && p[s] == '.');
        if !skip {
            return m;
        }
        m = cut_len_exec(p, b, m);
    }
    m
}

fn body_start_exec(p: &Vec<char>) -> (r: usize)
    ensures
        r as int == body_start(p@),
        r <= 1,
        r <= p@.len(),
{
    let n = p.len();
    if n > 0 && p[0] == '/' {
        1
    } else if n > 0 && p[0] == '.' && (n == 1 || p[1] == '/') {
        1
    } else {
        0
    }
}

fn subvec(p: &Vec<char>, from: usize, to: usize) -> (r: Vec<char>)
    requires
        from <= to <= p@.len(),
    ensures
        r@ == p@.subrange(from as int, to as int),
{
    let mut r: Vec<char> = Vec::new();
    let mut i = from;
    while i < to
        invariant
            from <= i <= to <= p@.len(),
            r@ == p@.subrange(from as int, i as int),
        decreases to - i,
    {
        r.push(p[i]);
        i = i + 1;
    }
    r
}

/// The last component of `path`, if it is a name.
pub fn file_name(path: &str) -> (r: Option<String>)
    ensures
        opt_view(r) == path_file_name(path@),
{
    let p = chars_of(path);
    let b = body_start_exec(&p);
    let n = trimmed_len_exec(&p, b, p.len());
    if n > b {
        let s = last_seg_start_exec(&p, b, n);
        if n - s == 2 && p[s] == '.' && p[s + 1] == '.' {
            assert(p@.subrange(s as int, n as int) =~= seq!['.', '.']);
            None
        } else {
            let v = subvec(&p, s, n);
            assert(v@ != seq!['.', '.']) by {
                assert(v@.len() == n - s);
                if v@ == seq!['.', '.'] {
                    assert(v@[0] == p@[s as int] && v@[1] == p@[s + 1]);
                }
            }
            Some(string_from_chars(&v))
        }
    } else {
        None
    }
}

/// The path without its last component.
pub fn parent(path: &str) -> (r: Option<String>)
    ensures
        opt_view(r) == path_parent(path@),
{
    let p = chars_of(path);
    let b = body_start_exec(&p);
    let n = trimmed_len_exec(&p, b, p.len());
    if n > b {
        let c = cut_len_exec(&p, b, n);
        let m = trimmed_len_exec(&p, b, c);
        let v = subvec(&p, 0, m);
        Some(string_from_chars(&v))
    } else if p.len() > 0 && p[0] == '.' && (p.len() == 1 || p[1] == '/') {
        Some(String::new())
    } else {
        None
    }
}

/// The extension of `name`'s last `.`-separated part.
fn name_extension_exec(name: &Vec<char>) -> (r: Option<Vec<char>>)
    ensures
        match r {
            Some(e) => name_extension(name@) == Some(e@),
            None => name_extension(name@) is None,
        },
{
    let n = name.len();
    let mut k = n;
    while k > 0
        invariant
            k <= n == name@.len(),
            rfind_dot(name@, n as int) == rfind_dot(name@, k as int),
        decreases k,
    {
        if name[k - 1] == '.' {
            if k - 1 > 0 {
                return Some(subvec(name, k, n));
            } else {
                return None;
            }
        }
        k = k - 1;
    }
    None
}

/// The extension of `path`'s file name.
pub fn extension(path: &str) -> (r: Option<String>)
    ensures
        opt_view(r) == path_extension(path@),
{
    match file_name(path) {
        Some(name) => {
            let v = chars_of(name.as_str());
            match name_extension_exec(&v) {
                Some(e) => Some(string_from_chars(&e)),
                None => None,
            }
        },
        None => None,
    }
}

/// `base` with `name` appended.
pub fn join(base: &str, name: &str) -> (r: String)
    ensures
        r@ == path_join(base@, name@),
{
    let b = chars_of(base);
    let q = chars_of(name);
    if q.len() > 0 && q[0] == '/' {
        return string_from_chars(&q);
    }
    let mut out = b.clone();
    if b.len() > 0 && b[b.len() - 1] != '/' {
        out.push('/');
    }
    let mut i: usize = 0;
    let ghost start = out@;
    while i < q.len()
        invariant
            i <= q@.len(),
            out@ == start + q@.subrange(0, i as int),
        decreases q@.len() - i,
    {
        out.push(q[i]);
        i = i + 1;
    }
    assert(q@.subrange(0, q@.len() as int) =~= q@);
    string_from_chars(&out)
}

} // verus!
