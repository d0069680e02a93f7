//! Unix paths held as strings, with the meaning that `std::path` gives
//! `join`, `file_name` and `extension`.
use vstd::prelude::*;
use crate::text::{chars_of, push_range, string_of};

verus! {

/// `Path::join(base, part)` on Unix: `part` itself where it is absolute,
/// else `base`, a `/` where `base` is not empty and does not end in one, and
/// `part`.
pub open spec fn join(base: Seq<char>, part: Seq<char>) -> Seq<char> {
    if part.len() > 0 && part[0] == '/' {
        part
    } else if base.len() == 0 || base.last() == '/' {
        base + part
    } else {
        base + seq!['/'] + part
    }
}

/// `Path::join`.
pub fn join_path(base: &str, part: &str) -> (r: String)
    ensures
        r@ == join(base@, part@),
{
    let b = chars_of(base);
    let p = chars_of(part);
    if p.len() > 0 && p[0] == '/' {
        return string_of(&p);
    }
    let mut r = string_of(&b);
    if !(b.len() == 0 || b[b.len() - 1] == '/') {
        crate::text::push_char(&mut r, '/');
    }
    r.append(part);
    r
}

/// The index of the last `c` in `s`, or -1 where there is none.
pub open spec fn last_index(s: Seq<char>, c: char) -> int
    decreases s.len(),
{
    if s.len() == 0 {
        -1
    } else if s.last() == c {
        s.len() - 1
    } else {
        last_index(s.drop_last(), c)
    }
}

pub proof fn lemma_last_index(s: Seq<char>, c: char)
    ensures
        -1 <= last_index(s, c) < s.len(),
        last_index(s, c) >= 0 ==> s[last_index(s, c)] == c,
        forall|j: int| last_index(s, c) < j < s.len() ==> s[j] != c,
    decreases s.len(),
{
    if s.len() > 0 && s.last() != c {
        lemma_last_index(s.drop_last(), c);
        assert forall|j: int| last_index(s, c) < j < s.len() implies s[j] != c by {
            if j < s.len() - 1 {
                assert(s[j] == s.drop_last()[j]);
            }
        }
    }
}

/// The index of the last `c` in `v[..end]`, or `None`.
fn find_last(v: &Vec<char>, c: char, end: usize) -> (r: Option<usize>)
    requires
        end <= v.len(),
    ensures
        match r {
            Some(k) => k < end && k == last_index(v@.take(end as int), c),
            None => last_index(v@.take(end as int), c) == -1,
        },
{
    let mut k = end;
    while k > 0 && v[k - 1] != c
        invariant
            k <= end <= v.len(),
            last_index(v@.take(end as int), c) == last_index(v@.take(k as int), c),
        decreases k,
    {
        assert(v@.take(k as int).drop_last() == v@.take(k - 1));
        k -= 1;
    }
    if k == 0 {
        assert(v@.take(0).len() == 0);
        None
    } else {
        Some(k - 1)
    }
}

/// `Path::file_name`: the last component of the path where it is a normal
/// name; `None` where the path is empty, is the root, or ends in `..`.
/// Trailing `/` and `.` components are not components of their own.
pub open spec fn file_name(p: Seq<char>) -> Option<Seq<char>>
    decreases p.len(),
{
    if p.len() == 0 {
        None
    } else if p.last() == '/' {
        file_name(p.drop_last())
    } else {
        let k = last_index(p, '/');
        let seg = p.skip(k + 1);
        if seg == seq!['.'] {
            if k < 0 {
                None
            } else {
                proof {
                    lemma_last_index(p, '/');
                }
                file_name(p.take(k))
            }
        } else if seg == seq!['.', '.'] {
            None
        } else {
            Some(seg)
        }
    }
}

/// The bounds of `file_name(v[..end])` in `v`.
fn file_name_bounds(v: &Vec<char>, end: usize) -> (r: Option<(usize, usize)>)
    requires
        end <= v.len(),
    ensures
        match r {
            Some((a, b)) => a <= b <= end && file_name(v@.take(end as int)) == Some(
                v@.subrange(a as int, b as int),
            ),
            None => file_name(v@.take(end as int)) is None,
        },
    decreases end,
{
    let ghost p = v@.take(end as int);
    if end == 0 {
        return None;
    }
    if v[end - 1] == '/' {
        assert(p.drop_last() == v@.take(end - 1));
        return file_name_bounds(v, end - 1);
    }
    let k = find_last(v, '/', end);
    let start: usize = match k {
        Some(k) => k + 1,
        None => 0,
    };
    proof {
        lemma_last_index(p, '/');
        assert(p.skip(last_index(p, '/') + 1) == v@.subrange(start as int, end as int));
    }
    let seg_len = end - start;
    if seg_len == 1 && v[start] == '.' {
        assert(v@.subrange(start as int, end as int) =~= seq!['.']);
        match k {
            None => None,
            Some(k) => {
                assert(p.take(k as int) == v@.take(k as int));
                file_name_bounds(v, k)
            },
        }
    } else if seg_len == 2 && v[start] == '.' && v[start + 1] == '.' {
        assert(v@.subrange(start as int, end as int) =~= seq!['.', '.']);
        None
    } else {
        assert(seg_len == 1 ==> v@.subrange(start as int, end as int) != seq!['.']) by {
            if seg_len == 1 {
                assert(v@.subrange(start as int, end as int)[0] == v@[start as int]);
            }
        }
        assert(seg_len == 2 ==> v@.subrange(start as int, end as int) != seq!['.', '.']) by {
            if seg_len == 2 {
                assert(v@.subrange(start as int, end as int)[0] == v@[start as int]);
                assert(v@.subrange(start as int, end as int)[1] == v@[start + 1]);
            }
        }
        Some((start, end))
    }
}

/// `Path::file_name`, as an owned string.
pub fn path_file_name(path: &str) -> (r: Option<String>)
    ensures
        match r {
            Some(n) => file_name(path@) == Some(n@),
            None => file_name(path@) is None,
        },
{
    let v = chars_of(path);
    assert(v@.take(v@.len() as int) == v@);
    match file_name_bounds(&v, v.len()) {
        Some((a, b)) => {
            let mut n = String::new();
            push_range(&mut n, &v, a, b);
            Some(n)
        },
        None => None,
    }
}

/// `Path::extension` of a file name: the text after its last `.`; `None`
/// where it has no `.` or only a leading one.
pub open spec fn extension(name: Seq<char>) -> Option<Seq<char>> {
    let k = last_index(name, '.');
    if k <= 0 {
        None
    } else {
        Some(name.skip(k + 1))
    }
}

/// ASCII lower case of `c` (`char::to_ascii_lowercase`).
pub open spec fn ascii_lower(c: char) -> char {
    if 'A' <= c && c <= 'Z' {
        ((c as u32) + 32) as char
    } else {
        c
    }
}

/// The name ends in a `.jpg` extension, in any ASCII case.
pub open spec fn is_jpg_name(name: Seq<char>) -> bool {
    match extension(name) {
        Some(e) => e.len() == 3 && ascii_lower(e[0]) == 'j' && ascii_lower(e[1]) == 'p'
            && ascii_lower(e[2]) == 'g',
        None => false,
    }
}

/// `char::to_ascii_lowercase`.
pub fn lower(c: char) -> (r: char)
    ensures
        r == ascii_lower(c),
{
    if 'A' <= c && c <= 'Z' {
        let v: u32 = (c as u32) + 32;
        crate::text::ascii_char(v)
    } else {
        c
    }
}

/// Whether a file name has the extension `jpg`, compared without regard to
/// ASCII case (`extension().eq_ignore_ascii_case("jpg")`).
pub fn is_jpg(name: &str) -> (b: bool)
    ensures
        b == is_jpg_name(name@),
{
    let v = chars_of(name);
    match find_last(&v, '.', v.len()) {
        None => {
            assert(v@.take(v@.len() as int) == v@);
            false
        },
        Some(k) => {
            assert(v@.take(v@.len() as int) == v@);
            if k == 0 {
                return false;
            }
            let ghost e = v@.skip(k + 1);
            if v.len() - (k + 1) != 3 {
                return false;
            }
            assert(e[0] == v@[k + 1] && e[1] == v@[k + 2] && e[2] == v@[k + 3]);
            lower(v[k + 1]) == 'j' && lower(v[k + 2]) == 'p' && lower(v[k + 3]) == 'g'
        },
    }
}

// ───────────────────────── laws ─────────────────────────

/// `last_index` is the position of the last `c`.
pub proof fn lemma_last_index_is(s: Seq<char>, c: char, k: int)
    requires
        -1 <= k < s.len(),
        k >= 0 ==> s[k] == c,
        forall|j: int| k < j < s.len() ==> #[trigger] s[j] != c,
    ensures
        last_index(s, c) == k,
    decreases s.len(),
{
    if s.len() > 0 && k < s.len() - 1 {
        lemma_last_index_is(s.drop_last(), c, k);
    }
}

/// A normal file name: not empty, without `/`, neither `.` nor `..`.
pub open spec fn plain_name(n: Seq<char>) -> bool {
    &&& n.len() > 0
    &&& forall|j: int| 0 <= j < n.len() ==> #[trigger] n[j] != '/'
    &&& n != seq!['.']
    &&& n != seq!['.', '.']
}

/// What `file_name` gives is a normal file name.
pub proof fn lemma_file_name_plain(p: Seq<char>)
    ensures
        file_name(p) matches Some(n) ==> plain_name(n),
    decreases p.len(),
{
    if p.len() == 0 {
    } else if p.last() == '/' {
        lemma_file_name_plain(p.drop_last());
    } else {
        let k = last_index(p, '/');
        lemma_last_index(p, '/');
        let seg = p.skip(k + 1);
        if seg == seq!['.'] {
            if k >= 0 {
                lemma_file_name_plain(p.take(k));
            }
        } else if seg != seq!['.', '.'] {
            assert forall|j: int| 0 <= j < seg.len() implies #[trigger] seg[j] != '/' by {
                assert(seg[j] == p[j + k + 1]);
            }
            assert(seg.len() > 0) by {
                assert(k < p.len() - 1) by {
                    if k == p.len() - 1 {
                        assert(p[k] == p.last());
                    }
                }
            }
        }
    }
}

/// Joining a normal file name to a directory and taking the file name back
/// gives the name.
pub proof fn lemma_file_name_of_join(dir: Seq<char>, n: Seq<char>)
    requires
        plain_name(n),
    ensures
        file_name(join(dir, n)) == Some(n),
{
    let r = join(dir, n);
    assert(n[0] != '/');
    let k = r.len() - n.len() - 1;
    assert(r.skip(k + 1) =~= n);
    assert forall|j: int| k < j < r.len() implies #[trigger] r[j] != '/' by {
        assert(r[j] == n[j - k - 1]);
    }
    if dir.len() == 0 {
        assert(r =~= n);
        lemma_last_index_is(r, '/', -1);
    } else if dir.last() == '/' {
        assert(r[k] == dir.last());
        lemma_last_index_is(r, '/', k);
    } else {
        assert(r[k] == '/');
        lemma_last_index_is(r, '/', k);
    }
    assert(r.last() == n.last());
}

/// A file keeps its name when it moves into another directory: the name of
/// `join(dir, file_name(p))` is `file_name(p)`.
pub proof fn law_move_keeps_file_name(p: Seq<char>, dir: Seq<char>)
    requires
        file_name(p) is Some,
    ensures
        file_name(join(dir, file_name(p)->0)) == file_name(p),
{
    lemma_file_name_plain(p);
    lemma_file_name_of_join(dir, file_name(p)->0);
}

} // verus!
