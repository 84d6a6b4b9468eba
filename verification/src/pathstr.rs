//! Unix paths held as strings, with the component semantics of `std::path::Path`.
//!
//! A component is written as the string that `Path::iter` yields for it: the
//! root as `/`, the current directory as `.`, the parent directory as `..`, and
//! any other component as its own text.
use vstd::prelude::*;
use crate::text::{
    append_chars, chars_of, concat_chars, copy_chars, eq_chars, eq_ignore_case, join, join_chars,
    lemma_chars_deep_view, lower, slice_chars, split_nonempty, split_pieces,
};

verus! {

pub open spec fn slash() -> Seq<char> {
    seq!['/']
}

pub open spec fn dot() -> Seq<char> {
    seq!['.']
}

pub open spec fn dotdot() -> Seq<char> {
    seq!['.', '.']
}

/// The path starts at the file system root (`Path::is_absolute` on Unix).
pub open spec fn has_root(p: Seq<char>) -> bool {
    p.len() > 0 && p[0] == '/'
}

/// A relative path that starts with a `.` component (`.` or `./...`).
pub open spec fn starts_with_cur_dir(p: Seq<char>) -> bool {
    !has_root(p) && p.len() >= 1 && p[0] == '.' && (p.len() == 1 || p[1] == '/')
}

/// The pieces of `ps` other than `.`.
pub open spec fn drop_dots(ps: Seq<Seq<char>>) -> Seq<Seq<char>>
    decreases ps.len(),
{
    if ps.len() == 0 {
        Seq::empty()
    } else if ps.last() == dot() {
        drop_dots(ps.drop_last())
    } else {
        drop_dots(ps.drop_last()).push(ps.last())
    }
}

/// `Path::components`, each component written as by `Path::iter`.
pub open spec fn components(p: Seq<char>) -> Seq<Seq<char>> {
    let head = if has_root(p) {
        seq![slash()]
    } else if starts_with_cur_dir(p) {
        seq![dot()]
    } else {
        Seq::empty()
    };
    head + drop_dots(split_nonempty(p, slash()))
}

/// A component that is a name, not the root, `.` or `..`.
pub open spec fn is_normal(c: Seq<char>) -> bool {
    c != slash() && c != dot() && c != dotdot()
}

/// `Path::file_name`.
pub open spec fn file_name(p: Seq<char>) -> Option<Seq<char>> {
    let cs = components(p);
    if cs.len() > 0 && is_normal(cs.last()) {
        Some(cs.last())
    } else {
        None
    }
}

/// Index of the last `c` in `s`, or -1.
pub open spec fn last_index_of(s: Seq<char>, c: char) -> int
    decreases s.len(),
{
    if s.len() == 0 {
        -1
    } else if s.last() == c {
        s.len() - 1
    } else {
        last_index_of(s.drop_last(), c)
    }
}

/// The stem of a file name (`Path::file_stem` on a name).
pub open spec fn name_stem(n: Seq<char>) -> Seq<char> {
    let i = last_index_of(n, '.');
    if n == dotdot() || i <= 0 {
        n
    } else {
        n.take(i)
    }
}

/// The extension of a file name (`Path::extension` on a name).
pub open spec fn name_extension(n: Seq<char>) -> Option<Seq<char>> {
    let i = last_index_of(n, '.');
    if n == dotdot() || i <= 0 {
        None
    } else {
        Some(n.skip(i + 1))
    }
}

/// `Path::file_stem`.
pub open spec fn file_stem(p: Seq<char>) -> Option<Seq<char>> {
    match file_name(p) {
        Some(n) => Some(name_stem(n)),
        None => None,
    }
}

/// `Path::extension`.
pub open spec fn extension(p: Seq<char>) -> Option<Seq<char>> {
    match file_name(p) {
        Some(n) => name_extension(n),
        None => None,
    }
}

/// `Path::join` on Unix: an absolute `b` replaces `a`, otherwise `b` is appended
/// after a separator when `a` does not already end with one.
pub open spec fn path_join(a: Seq<char>, b: Seq<char>) -> Seq<char> {
    if has_root(b) {
        b
    } else if a.len() > 0 && a.last() != '/' {
        a + slash() + b
    } else {
        a + b
    }
}

/// Writes components back as a path string.
pub open spec fn render(cs: Seq<Seq<char>>) -> Seq<char> {
    if cs.len() > 0 && cs[0] == slash() {
        slash() + join(cs.drop_first(), slash())
    } else {
        join(cs, slash())
    }
}

/// `Path::parent`: the path without its last component, when that component is
/// not the root.
pub open spec fn parent(p: Seq<char>) -> Option<Seq<char>> {
    let cs = components(p);
    if cs.len() > 0 && cs.last() != slash() {
        Some(render(cs.drop_last()))
    } else {
        None
    }
}

/// Some component equals `name`, ignoring ASCII case.
pub open spec fn has_component_ci(p: Seq<char>, name: Seq<char>) -> bool {
    exists|i: int| 0 <= i < components(p).len() && lower(#[trigger] components(p)[i]) == lower(name)
}

/// `Path::strip_prefix`, the rest written back as a path.
pub open spec fn strip_prefix(p: Seq<char>, base: Seq<char>) -> Option<Seq<char>> {
    let cp = components(p);
    let cb = components(base);
    if cb.len() <= cp.len() && cp.take(cb.len() as int) == cb {
        Some(render(cp.skip(cb.len() as int)))
    } else {
        None
    }
}

// ---------------------------------------------------------------------------
// Executable counterparts
// ---------------------------------------------------------------------------

pub fn is_absolute(p: &Vec<char>) -> (r: bool)
    ensures
        r == has_root(p@),
{
    p.len() > 0 && p[0] == '/'
}

fn drop_dot_pieces(ps: Vec<Vec<char>>) -> (r: Vec<Vec<char>>)
    ensures
        r.deep_view() == drop_dots(ps.deep_view()),
{
    let mut r: Vec<Vec<char>> = Vec::new();
    let mut i: usize = 0;
    let ghost pv = ps.deep_view();
    while i < ps.len()
        invariant
            i <= ps.len(),
            pv == ps.deep_view(),
            r.deep_view() == drop_dots(pv.take(i as int)),
        decreases ps.len() - i,
    {
        let ghost before = r.deep_view();
        assert(pv.take(i + 1).drop_last() =~= pv.take(i as int));
        assert(pv.take(i + 1).last() == ps@[i as int]@);
        let is_dot = ps[i].len() == 1 && ps[i][0] == '.';
        proof {
            if ps@[i as int]@ == dot() {
                assert(ps@[i as int]@[0] == '.');
            }
            if is_dot {
                assert(ps@[i as int]@ =~= dot());
            }
        }
        if !is_dot {
            let piece = copy_chars(&ps[i]);
            proof {
                lemma_chars_deep_view(&piece);
            }
            r.push(piece);
            assert(r.deep_view() =~= before.push(ps@[i as int]@));
        }
        i = i + 1;
    }
    assert(pv.take(ps.len() as int) =~= pv);
    r
}

/// `Path::components` of `p`.
pub fn path_components(p: &Vec<char>) -> (r: Vec<Vec<char>>)
    ensures
        r.deep_view() == components(p@),
{
    let mut seps: Vec<char> = Vec::new();
    seps.push('/');
    assert(seps@ =~= slash());
    let pieces = split_pieces(p, &seps);
    let rest = drop_dot_pieces(pieces);
    let mut r: Vec<Vec<char>> = Vec::new();
    if p.len() > 0 && p[0] == '/' {
        let mut s: Vec<char> = Vec::new();
        s.push('/');
        proof {
            lemma_chars_deep_view(&s);
            assert(s@ =~= slash());
        }
        r.push(s);
    } else if p.len() >= 1 && p[0] == '.' && (p.len() == 1 || p[1] == '/') {
        let mut s: Vec<char> = Vec::new();
        s.push('.');
        proof {
            lemma_chars_deep_view(&s);
            assert(s@ =~= dot());
        }
        r.push(s);
    }
    let ghost head = r.deep_view();
    let mut i: usize = 0;
    while i < rest.len()
        invariant
            i <= rest.len(),
            r.deep_view() == head + rest.deep_view().take(i as int),
        decreases rest.len() - i,
    {
        let piece = copy_chars(&rest[i]);
        proof {
            lemma_chars_deep_view(&piece);
        }
        let ghost before = r.deep_view();
        r.push(piece);
        assert(r.deep_view() =~= before.push(rest@[i as int]@));
        assert(rest.deep_view().take(i + 1) =~= rest.deep_view().take(i as int).push(
            rest@[i as int]@,
        ));
        i = i + 1;
    }
    assert(rest.deep_view().take(rest.len() as int) =~= rest.deep_view());
    proof {
        if has_root(p@) {
            assert(head =~= seq![slash()]);
        } else if starts_with_cur_dir(p@) {
            assert(head =~= seq![dot()]);
        } else {
            assert(head =~= Seq::<Seq<char>>::empty());
        }
    }
    r
}

fn is_normal_chars(c: &Vec<char>) -> (r: bool)
    ensures
        r == is_normal(c@),
{
    let is_slash = c.len() == 1 && c[0] == '/';
    let is_dot = c.len() == 1 && c[0] == '.';
    let is_dotdot = c.len() == 2 && c[0] == '.' && c[1] == '.';
    proof {
        if c@ == slash() {
            assert(c@[0] == '/');
        }
        if c@ == dot() {
            assert(c@[0] == '.');
        }
        if c@ == dotdot() {
            assert(c@[0] == '.' && c@[1] == '.');
        }
        if is_slash {
            assert(c@ =~= slash());
        }
        if is_dot {
            assert(c@ =~= dot());
        }
        if is_dotdot {
            assert(c@ =~= dotdot());
        }
    }
    !is_slash && !is_dot && !is_dotdot
}

/// `Path::file_name` of `p`.
pub fn path_file_name(p: &Vec<char>) -> (r: Option<Vec<char>>)
    ensures
        match r {
            Some(n) => file_name(p@) == Some(n@),
            None => file_name(p@).is_none(),
        },
{
    let cs = path_components(p);
    if cs.len() > 0 && is_normal_chars(&cs[cs.len() - 1]) {
        let n = copy_chars(&cs[cs.len() - 1]);
        assert(cs.deep_view().last() == cs@[cs.len() - 1]@);
        Some(n)
    } else {
        proof {
            if cs.len() > 0 {
                assert(cs.deep_view().last() == cs@[cs.len() - 1]@);
            }
        }
        None
    }
}

/// `Path::file_name` as text, or the empty string when there is none.
pub fn file_name_or_empty(p: &Vec<char>) -> (r: Vec<char>)
    ensures
        r@ == match file_name(p@) {
            Some(n) => n,
            None => Seq::empty(),
        },
{
    match path_file_name(p) {
        Some(n) => n,
        None => Vec::new(),
    }
}

fn last_index(s: &Vec<char>, c: char) -> (r: Option<usize>)
    ensures
        match r {
            Some(i) => last_index_of(s@, c) == i && i < s.len(),
            None => last_index_of(s@, c) == -1,
        },
{
    let mut j: usize = s.len();
    assert(s@.take(s.len() as int) =~= s@);
    while j > 0
        invariant
            j <= s.len(),
            last_index_of(s@, c) == last_index_of(s@.take(j as int), c),
        decreases j,
    {
        assert(s@.take(j as int).drop_last() =~= s@.take(j - 1));
        if s[j - 1] == c {
            return Some(j - 1);
        }
        j = j - 1;
    }
    None
}

/// The stem of a file name.
pub fn stem_of_name(n: &Vec<char>) -> (r: Vec<char>)
    ensures
        r@ == name_stem(n@),
{
    let is_dotdot = n.len() == 2 && n[0] == '.' && n[1] == '.';
    proof {
        if n@ == dotdot() {
            assert(n@[0] == '.' && n@[1] == '.');
        }
        if is_dotdot {
            assert(n@ =~= dotdot());
        }
    }
    match last_index(n, '.') {
        Some(i) => {
            if is_dotdot || i == 0 {
                copy_chars(n)
            } else {
                slice_chars(n, 0, i)
            }
        },
        None => copy_chars(n),
    }
}

/// The extension of a file name.
pub fn extension_of_name(n: &Vec<char>) -> (r: Option<Vec<char>>)
    ensures
        match r {
            Some(e) => name_extension(n@) == Some(e@),
            None => name_extension(n@).is_none(),
        },
{
    let is_dotdot = n.len() == 2 && n[0] == '.' && n[1] == '.';
    proof {
        if n@ == dotdot() {
            assert(n@[0] == '.' && n@[1] == '.');
        }
        if is_dotdot {
            assert(n@ =~= dotdot());
        }
    }
    match last_index(n, '.') {
        Some(i) => {
            if is_dotdot || i == 0 {
                None
            } else {
                Some(slice_chars(n, i + 1, n.len()))
            }
        },
        None => None,
    }
}

/// `Path::extension` of `p`.
pub fn path_extension(p: &Vec<char>) -> (r: Option<Vec<char>>)
    ensures
        match r {
            Some(e) => extension(p@) == Some(e@),
            None => extension(p@).is_none(),
        },
{
    match path_file_name(p) {
        Some(n) => extension_of_name(&n),
        None => None,
    }
}

/// `Path::join` of `a` and `b`.
pub fn join_path(a: &Vec<char>, b: &Vec<char>) -> (r: Vec<char>)
    ensures
        r@ == path_join(a@, b@),
{
    if b.len() > 0 && b[0] == '/' {
        copy_chars(b)
    } else if a.len() > 0 && a[a.len() - 1] != '/' {
        let mut r = copy_chars(a);
        r.push('/');
        append_chars(&mut r, b);
        assert(r@ =~= a@ + slash() + b@);
        r
    } else {
        concat_chars(a, b)
    }
}

/// `Path::join` of `a` and the literal `b`.
pub fn join_path_str(a: &Vec<char>, b: &str) -> (r: Vec<char>)
    ensures
        r@ == path_join(a@, b@),
{
    let bc = chars_of(b);
    join_path(a, &bc)
}

/// Writes components back as a path string.
pub fn render_components(cs: &Vec<Vec<char>>) -> (r: Vec<char>)
    ensures
        r@ == render(cs.deep_view()),
{
    let mut sep: Vec<char> = Vec::new();
    sep.push('/');
    assert(sep@ =~= slash());
    let is_root = cs.len() > 0 && cs[0].len() == 1 && cs[0][0] == '/';
    proof {
        if cs.len() > 0 {
            assert(cs.deep_view()[0] == cs@[0]@);
            if cs@[0]@ == slash() {
                assert(cs@[0]@[0] == '/');
            }
            if is_root {
                assert(cs@[0]@ =~= slash());
            }
        }
    }
    if is_root {
        let mut rest: Vec<Vec<char>> = Vec::new();
        let mut i: usize = 1;
        while i < cs.len()
            invariant
                1 <= i <= cs.len(),
                rest.deep_view() == cs.deep_view().subrange(1, i as int),
            decreases cs.len() - i,
        {
            let piece = copy_chars(&cs[i]);
            proof {
                lemma_chars_deep_view(&piece);
            }
            let ghost before = rest.deep_view();
            rest.push(piece);
            assert(rest.deep_view() =~= before.push(cs@[i as int]@));
            assert(cs.deep_view().subrange(1, i + 1) =~= cs.deep_view().subrange(1, i as int).push(
                cs@[i as int]@,
            ));
            i = i + 1;
        }
        assert(cs.deep_view().subrange(1, cs.len() as int) =~= cs.deep_view().drop_first());
        let joined = join_chars(&rest, &sep);
        concat_chars(&sep, &joined)
    } else {
        join_chars(cs, &sep)
    }
}

/// `Path::parent` of `p`.
pub fn path_parent(p: &Vec<char>) -> (r: Option<Vec<char>>)
    ensures
        match r {
            Some(q) => parent(p@) == Some(q@),
            None => parent(p@).is_none(),
        },
{
    let mut cs = path_components(p);
    if cs.len() == 0 {
        return None;
    }
    let last_is_root = cs[cs.len() - 1].len() == 1 && cs[cs.len() - 1][0] == '/';
    proof {
        assert(cs.deep_view().last() == cs@[cs.len() - 1]@);
        if cs@[cs.len() - 1]@ == slash() {
            assert(cs@[cs.len() - 1]@[0] == '/');
        }
        if last_is_root {
            assert(cs@[cs.len() - 1]@ =~= slash());
        }
    }
    if last_is_root {
        return None;
    }
    let ghost before = cs.deep_view();
    let _ = cs.pop();
    assert(cs.deep_view() =~= before.drop_last());
    Some(render_components(&cs))
}

/// Some component of `p` equals `name`, ignoring ASCII case.
pub fn has_component_ignore_case(p: &Vec<char>, name: &str) -> (r: bool)
    ensures
        r == has_component_ci(p@, name@),
{
    let cs = path_components(p);
    let n = chars_of(name);
    let mut i: usize = 0;
    while i < cs.len()
        invariant
            i <= cs.len(),
            n@ == name@,
            cs.deep_view() == components(p@),
            forall|k: int| 0 <= k < i ==> lower(#[trigger] components(p@)[k]) != lower(name@),
        decreases cs.len() - i,
    {
        assert(cs.deep_view()[i as int] == cs@[i as int]@);
        if eq_ignore_case(&cs[i], &n) {
            return true;
        }
        i = i + 1;
    }
    false
}

/// `Path::strip_prefix` of `p` by `base`.
pub fn path_strip_prefix(p: &Vec<char>, base: &Vec<char>) -> (r: Option<Vec<char>>)
    ensures
        match r {
            Some(q) => strip_prefix(p@, base@) == Some(q@),
            None => strip_prefix(p@, base@).is_none(),
        },
{
    let cp = path_components(p);
    let cb = path_components(base);
    if cb.len() > cp.len() {
        return None;
    }
    let mut i: usize = 0;
    while i < cb.len()
        invariant
            i <= cb.len() <= cp.len(),
            cp.deep_view() == components(p@),
            cb.deep_view() == components(base@),
            forall|k: int| 0 <= k < i ==> cp.deep_view()[k] == cb.deep_view()[k],
        decreases cb.len() - i,
    {
        proof {
            lemma_chars_deep_view(&cp@[i as int]);
            lemma_chars_deep_view(&cb@[i as int]);
        }
        if !eq_chars(&cp[i], &cb[i]) {
            assert(cp.deep_view().take(cb.len() as int)[i as int] != cb.deep_view()[i as int]);
            assert(cp.deep_view().take(cb.len() as int) != cb.deep_view());
            return None;
        }
        i = i + 1;
    }
    assert(cp.deep_view().take(cb.len() as int) =~= cb.deep_view());
    let mut rest: Vec<Vec<char>> = Vec::new();
    let mut j: usize = cb.len();
    while j < cp.len()
        invariant
            cb.len() <= j <= cp.len(),
            rest.deep_view() == cp.deep_view().subrange(cb.len() as int, j as int),
        decreases cp.len() - j,
    {
        let piece = copy_chars(&cp[j]);
        proof {
            lemma_chars_deep_view(&piece);
        }
        let ghost before = rest.deep_view();
        rest.push(piece);
        assert(rest.deep_view() =~= before.push(cp@[j as int]@));
        assert(cp.deep_view().subrange(cb.len() as int, j + 1) =~= cp.deep_view().subrange(
            cb.len() as int,
            j as int,
        ).push(cp@[j as int]@));
        j = j + 1;
    }
    assert(cp.deep_view().subrange(cb.len() as int, cp.len() as int) =~= cp.deep_view().skip(
        cb.len() as int,
    ));
    Some(render_components(&rest))
}

} // verus!
