//! A model of Unix path syntax as `std::path::Path` reads it: components,
//! the file name, its stem and extension, extension replacement and
//! component-wise prefixes. Paths are character sequences.

use vstd::prelude::*;
use crate::text::{split, views, seq_eq, subvec, extend, split_vec};

verus! {

/// Index just past the last `/` of `s`, or 0 when there is none: where the
/// last `/`-separated piece begins.
pub open spec fn piece_start(s: Seq<char>) -> int
    decreases s.len(),
{
    if s.len() == 0 {
        0
    } else if s.last() == '/' {
        s.len() as int
    } else {
        piece_start(s.drop_last())
    }
}

pub proof fn lemma_piece_start_bounds(s: Seq<char>)
    ensures
        0 <= piece_start(s) <= s.len(),
        s.len() > 0 && s.last() != '/' ==> piece_start(s) < s.len(),
    decreases s.len(),
{
    if s.len() > 0 {
        lemma_piece_start_bounds(s.drop_last());
    }
}

/// The span `[a, b)` of the last piece that is neither empty nor `.`: the
/// last component of the path, when there is one after the root.
pub open spec fn last_name_span(s: Seq<char>) -> Option<(int, int)>
    decreases s.len(),
{
    if s.len() == 0 {
        None
    } else if s.last() == '/' {
        last_name_span(s.drop_last())
    } else {
        let a = piece_start(s);
        proof {
            lemma_piece_start_bounds(s);
        }
        if s.subrange(a, s.len() as int) == seq!['.'] {
            last_name_span(s.take(a))
        } else {
            Some((a, s.len() as int))
        }
    }
}

/// `Path::file_name`: the last component unless it is `..` (or there is none).
pub open spec fn file_name(s: Seq<char>) -> Option<Seq<char>> {
    match last_name_span(s) {
        Some((a, b)) => if s.subrange(a, b) == seq!['.', '.'] {
            None
        } else {
            Some(s.subrange(a, b))
        },
        None => None,
    }
}

/// Index of the last `.` in `n`, or -1.
pub open spec fn last_dot(n: Seq<char>) -> int
    decreases n.len(),
{
    if n.len() == 0 {
        -1
    } else if n.last() == '.' {
        n.len() - 1
    } else {
        last_dot(n.drop_last())
    }
}

/// The stem of a file name: everything before the last `.`, unless that
/// dot is the first character or there is none.
pub open spec fn stem_of(n: Seq<char>) -> Seq<char> {
    let k = last_dot(n);
    if k <= 0 {
        n
    } else {
        n.take(k)
    }
}

/// The extension of a file name: everything after the last `.`, when that
/// dot is not the first character.
pub open spec fn ext_of(n: Seq<char>) -> Option<Seq<char>> {
    let k = last_dot(n);
    if k <= 0 {
        None
    } else {
        Some(n.skip(k + 1))
    }
}

/// `Path::file_stem`.
pub open spec fn file_stem(s: Seq<char>) -> Option<Seq<char>> {
    match file_name(s) {
        Some(n) => Some(stem_of(n)),
        None => None,
    }
}

/// `Path::extension`.
pub open spec fn extension(s: Seq<char>) -> Option<Seq<char>> {
    match file_name(s) {
        Some(n) => ext_of(n),
        None => None,
    }
}

/// `Path::with_extension`: the path cut right after the file stem, then
/// `.ext` when `ext` is not empty; unchanged when there is no file name.
pub open spec fn with_extension(s: Seq<char>, ext: Seq<char>) -> Seq<char> {
    match file_name(s) {
        Some(n) => {
            let a = match last_name_span(s) {
                Some((a, _)) => a,
                None => 0,
            };
            let cut = s.take(a + stem_of(n).len());
            if ext.len() > 0 {
                cut.push('.') + ext
            } else {
                cut
            }
        },
        None => s,
    }
}

/// The pieces that name components: neither empty nor `.`.
pub open spec fn kept(ps: Seq<Seq<char>>) -> Seq<Seq<char>>
    decreases ps.len(),
{
    if ps.len() == 0 {
        Seq::<Seq<char>>::empty()
    } else {
        let rest = kept(ps.drop_last());
        let p = ps.last();
        if p.len() == 0 || p == seq!['.'] {
            rest
        } else {
            rest.push(p)
        }
    }
}

pub open spec fn has_root(s: Seq<char>) -> bool {
    s.len() > 0 && s[0] == '/'
}

/// A relative path that begins with a `.` component.
pub open spec fn has_cur_dir(s: Seq<char>) -> bool {
    !has_root(s) && s.len() > 0 && s[0] == '.' && (s.len() == 1 || s[1] == '/')
}

/// `Path::components`, each written as text: the root as `/`, a leading
/// current-directory component as `.`, the rest as themselves.
pub open spec fn components(s: Seq<char>) -> Seq<Seq<char>> {
    let root: Seq<Seq<char>> = if has_root(s) {
        seq![seq!['/']]
    } else {
        Seq::<Seq<char>>::empty()
    };
    let cur: Seq<Seq<char>> = if has_cur_dir(s) {
        seq![seq!['.']]
    } else {
        Seq::<Seq<char>>::empty()
    };
    root + cur + kept(split(s, '/'))
}

/// `Path::starts_with`: the components of `base` are a prefix of those of `p`.
pub open spec fn path_starts_with(p: Seq<char>, base: Seq<char>) -> bool {
    let cp = components(p);
    let cb = components(base);
    cb.len() <= cp.len() && cp.take(cb.len() as int) == cb
}

proof fn lemma_piece_start_at(s: Seq<char>, a: int)
    requires
        0 <= a <= s.len(),
        a == 0 || s[a - 1] == '/',
        forall|j: int| a <= j < s.len() ==> s[j] != '/',
    ensures
        piece_start(s) == a,
    decreases s.len(),
{
    if s.len() > a {
        lemma_piece_start_at(s.drop_last(), a);
    } else if s.len() > 0 {
        assert(s.last() == '/');
    }
}

/// The span of the last component (see `last_name_span`).
pub fn name_span(v: &Vec<char>) -> (r: Option<(usize, usize)>)
    ensures
        match r {
            Some((a, b)) => last_name_span(v@) == Some((a as int, b as int)) && a < b <= v.len(),
            None => last_name_span(v@) is None,
        },
{
    let mut end = v.len();
    assert(v@.take(end as int) =~= v@);
    loop
        invariant
            end <= v.len(),
            last_name_span(v@) == last_name_span(v@.take(end as int)),
        decreases end,
    {
        let ghost e0 = end;
        while end > 0 && v[end - 1] == '/'
            invariant
                end <= e0,
                end <= v.len(),
                last_name_span(v@) == last_name_span(v@.take(end as int)),
            decreases end,
        {
            assert(v@.take(end as int).drop_last() =~= v@.take(end - 1));
            end = end - 1;
        }
        if end == 0 {
            return None;
        }
        let mut a = end - 1;
        while a > 0 && v[a - 1] != '/'
            invariant
                a < end <= v.len(),
                forall|j: int| a <= j < end ==> v@[j] != '/',
            decreases a,
        {
            a = a - 1;
        }
        let ghost t = v@.take(end as int);
        proof {
            lemma_piece_start_at(t, a as int);
            assert(t.last() != '/');
        }
        if end - a == 1 && v[a] == '.' {
            assert(t.subrange(a as int, end as int) =~= seq!['.']);
            assert(t.take(a as int) =~= v@.take(a as int));
            end = a;
        } else {
            assert(t.subrange(a as int, end as int) != seq!['.']) by {
                let u = t.subrange(a as int, end as int);
                assert(u.len() == end - a);
                assert(u[0] == v@[a as int]);
                if u == seq!['.'] {
                    assert(seq!['.'].len() == 1);
                    assert(seq!['.'][0] == '.');
                }
            }
            return Some((a, end));
        }
    }
}

proof fn lemma_span_ok(s: Seq<char>)
    ensures
        last_name_span(s) matches Some((a, b)) ==> 0 <= a < b <= s.len(),
    decreases s.len(),
{
    if s.len() > 0 {
        if s.last() == '/' {
            lemma_span_ok(s.drop_last());
        } else {
            lemma_piece_start_bounds(s);
            let a = piece_start(s);
            if s.subrange(a, s.len() as int) == seq!['.'] {
                lemma_span_ok(s.take(a));
            }
        }
    }
}

/// `Path::file_name`.
pub fn file_name_vec(v: &Vec<char>) -> (r: Option<Vec<char>>)
    ensures
        match r {
            Some(n) => file_name(v@) == Some(n@),
            None => file_name(v@) is None,
        },
{
    match name_span(v) {
        Some((a, b)) => {
            let n = subvec(v, a, b);
            if n.len() == 2 && n[0] == '.' && n[1] == '.' {
                assert(n@ =~= seq!['.', '.']);
                None
            } else {
                assert(n@ != seq!['.', '.']) by {
                    if n@ == seq!['.', '.'] {
                        assert(seq!['.', '.'][0] == '.');
                        assert(seq!['.', '.'][1] == '.');
                    }
                }
                Some(n)
            }
        },
        None => None,
    }
}

/// Index of the last `.`, if any.
fn last_dot_vec(n: &Vec<char>) -> (r: Option<usize>)
    ensures
        match r {
            Some(k) => last_dot(n@) == k as int && k < n.len(),
            None => last_dot(n@) == -1,
        },
{
    let mut i = n.len();
    assert(n@.take(i as int) =~= n@);
    while i > 0
        invariant
            i <= n.len(),
            last_dot(n@) == last_dot(n@.take(i as int)),
        decreases i,
    {
        let ghost t = n@.take(i as int);
        if n[i - 1] == '.' {
            return Some(i - 1);
        }
        assert(t.drop_last() =~= n@.take(i - 1));
        i = i - 1;
    }
    None
}

pub fn stem_vec(n: &Vec<char>) -> (r: Vec<char>)
    ensures
        r@ == stem_of(n@),
        r@.len() <= n@.len(),
{
    match last_dot_vec(n) {
        Some(k) => if k == 0 {
            subvec(n, 0, n.len())
        } else {
            subvec(n, 0, k)
        },
        None => subvec(n, 0, n.len()),
    }
}

pub fn ext_vec(n: &Vec<char>) -> (r: Option<Vec<char>>)
    ensures
        match r {
            Some(e) => ext_of(n@) == Some(e@),
            None => ext_of(n@) is None,
        },
{
    match last_dot_vec(n) {
        Some(k) => if k == 0 {
            None
        } else {
            Some(subvec(n, k + 1, n.len()))
        },
        None => None,
    }
}

/// `Path::file_stem`.
pub fn file_stem_vec(v: &Vec<char>) -> (r: Option<Vec<char>>)
    ensures
        match r {
            Some(n) => file_stem(v@) == Some(n@),
            None => file_stem(v@) is None,
        },
{
    match file_name_vec(v) {
        Some(n) => Some(stem_vec(&n)),
        None => None,
    }
}

/// `Path::extension`.
pub fn extension_vec(v: &Vec<char>) -> (r: Option<Vec<char>>)
    ensures
        match r {
            Some(e) => extension(v@) == Some(e@),
            None => extension(v@) is None,
        },
{
    match file_name_vec(v) {
        Some(n) => ext_vec(&n),
        None => None,
    }
}

/// `Path::with_extension`.
pub fn with_extension_vec(v: &Vec<char>, ext: &Vec<char>) -> (r: Vec<char>)
    ensures
        r@ == with_extension(v@, ext@),
{
    match name_span(v) {
        Some((a, b)) => {
            let n = subvec(v, a, b);
            if n.len() == 2 && n[0] == '.' && n[1] == '.' {
                assert(n@ =~= seq!['.', '.']);
                subvec(v, 0, v.len())
            } else {
                assert(n@ != seq!['.', '.']) by {
                    if n@ == seq!['.', '.'] {
                        assert(seq!['.', '.'][0] == '.');
                        assert(seq!['.', '.'][1] == '.');
                    }
                }
                let stem = stem_vec(&n);
                assert(stem@.len() <= n@.len());
                let mut r = subvec(v, 0, a + stem.len());
                if ext.len() > 0 {
                    r.push('.');
                    extend(&mut r, ext);
                }
                r
            }
        },
        None => subvec(v, 0, v.len()),
    }
}

/// `Path::components`, written as text (see `components`).
pub fn components_vec(v: &Vec<char>) -> (r: Vec<Vec<char>>)
    ensures
        views(r@) == components(v@),
{
    let mut r: Vec<Vec<char>> = Vec::new();
    let root = v.len() > 0 && v[0] == '/';
    if root {
        let mut c: Vec<char> = Vec::new();
        c.push('/');
        r.push(c);
    }
    if !root && v.len() > 0 && v[0] == '.' && (v.len() == 1 || v[1] == '/') {
        let mut c: Vec<char> = Vec::new();
        c.push('.');
        r.push(c);
    }
    let ghost head = views(r@);
    assert(head =~= components(v@).take(head.len() as int)) by {
        assert(components(v@) =~= head + kept(split(v@, '/')));
    }
    let pieces = split_vec(v, '/');
    let ghost ps = split(v@, '/');
    for i in 0..pieces.len()
        invariant
            views(pieces@) == ps,
            ps == split(v@, '/'),
            views(r@) =~= head + kept(ps.take(i as int)),
            components(v@) =~= head + kept(ps),
    {
        assert(ps.take(i + 1).drop_last() =~= ps.take(i as int));
        let p = &pieces[i];
        assert(p@ == ps[i as int]);
        assert(ps.take(i + 1).last() == ps[i as int]);
        if p.len() == 0 || (p.len() == 1 && p[0] == '.') {
            assert(p@.len() == 0 || p@ =~= seq!['.']);
            assert(kept(ps.take(i + 1)) == kept(ps.take(i as int)));
        } else {
            assert(!(p@.len() == 0 || p@ == seq!['.'])) by {
                if p@ == seq!['.'] {
                    assert(seq!['.'][0] == '.');
                }
            }
            assert(kept(ps.take(i + 1)) == kept(ps.take(i as int)).push(p@));
            let q = subvec(p, 0, p.len());
            assert(q@ =~= p@);
            let ghost before = r@;
            r.push(q);
            assert(views(r@) =~= views(before).push(q@));
        }
    }
    assert(ps.take(pieces.len() as int) =~= ps);
    r
}

/// `Path::starts_with`.
pub fn path_starts_with_vec(p: &Vec<char>, base: &Vec<char>) -> (r: bool)
    ensures
        r == path_starts_with(p@, base@),
{
    let cp = components_vec(p);
    let cb = components_vec(base);
    if cb.len() > cp.len() {
        return false;
    }
    for i in 0..cb.len()
        invariant
            cb.len() <= cp.len(),
            views(cp@) == components(p@),
            views(cb@) == components(base@),
            forall|j: int| 0 <= j < i ==> views(cp@)[j] == views(cb@)[j],
    {
        assert(views(cp@)[i as int] == cp@[i as int]@);
        assert(views(cb@)[i as int] == cb@[i as int]@);
        if !seq_eq(&cp[i], &cb[i]) {
            assert(views(cp@)[i as int] == cp@[i as int]@);
            assert(views(cb@)[i as int] == cb@[i as int]@);
            assert(views(cp@)[i as int] != views(cb@)[i as int]);
            assert(views(cp@).take(cb.len() as int)[i as int] == views(cp@)[i as int]);
            assert(views(cp@).take(cb.len() as int) != views(cb@));
            return false;
        }
    }
    assert(views(cp@).take(cb.len() as int) =~= views(cb@));
    true
}

} // verus!
