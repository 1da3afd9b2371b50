//! Unix path logic on paths held as text: components, `starts_with`,
//! `join` and `is_absolute`, as `std::path` defines them for Unix.

use vstd::prelude::*;
use crate::text::{
    slice, chars_eq, is_text, owned, split, split_chars, starts_with, starts_with_chars, string_of,
    to_chars, views,
};

verus! {

/// A component that `Path::components` keeps between separators: not empty
/// and not `.`.
pub open spec fn is_kept_part(p: Seq<char>) -> bool {
    p.len() != 0 && p != seq!['.']
}

/// The parts of `parts` that are kept as components.
pub open spec fn kept_parts(parts: Seq<Seq<char>>) -> Seq<Seq<char>>
    decreases parts.len(),
{
    if parts.len() == 0 {
        seq![]
    } else if is_kept_part(parts.last()) {
        kept_parts(parts.drop_last()).push(parts.last())
    } else {
        kept_parts(parts.drop_last())
    }
}

/// `Path::components` on Unix: a leading `/` gives a root component `/`, a
/// leading `.` part gives a current-directory component `.`, and then the
/// parts between separators other than empty ones and `.`.
pub open spec fn components(p: Seq<char>) -> Seq<Seq<char>> {
    let parts = split(p, '/');
    if starts_with(p, seq!['/']) {
        seq![seq!['/']] + kept_parts(parts.drop_first())
    } else if parts.len() > 0 && parts[0] == seq!['.'] {
        seq![seq!['.']] + kept_parts(parts.drop_first())
    } else {
        kept_parts(parts)
    }
}

/// `Path::starts_with`: the components of `base` begin the components of `p`.
pub open spec fn path_starts_with(p: Seq<char>, base: Seq<char>) -> bool {
    let a = components(p);
    let b = components(base);
    b.len() <= a.len() && a.subrange(0, b.len() as int) == b
}

/// `Path::is_absolute` on Unix: the path begins with `/`.
pub open spec fn is_absolute(p: Seq<char>) -> bool {
    starts_with(p, seq!['/'])
}

/// `Path::join` on Unix: an absolute `q` replaces `p`; otherwise `q` is
/// appended after a separator, unless `p` is empty or already ends in one.
pub open spec fn join(p: Seq<char>, q: Seq<char>) -> Seq<char> {
    if is_absolute(q) {
        q
    } else if p.len() > 0 && p.last() != '/' {
        p + seq!['/'] + q
    } else {
        p + q
    }
}

/// The kept parts of `parts[from..]`, in order.
fn kept_parts_exec(parts: &Vec<Vec<char>>, from: usize) -> (r: Vec<Vec<char>>)
    requires
        from <= parts.len(),
    ensures
        views(r@) == kept_parts(views(parts@).skip(from as int)),
{
    let mut r: Vec<Vec<char>> = Vec::new();
    let mut i: usize = from;
    while i < parts.len()
        invariant
            from <= i <= parts.len(),
            views(r@) == kept_parts(views(parts@).subrange(from as int, i as int)),
        decreases parts.len() - i,
    {
        let ghost before = views(parts@).subrange(from as int, i as int);
        let ghost after = views(parts@).subrange(from as int, i + 1);
        assert(after.drop_last() =~= before);
        assert(after.last() == parts@[i as int]@);
        let part = &parts[i];
        let dot = is_text(part, ".");
        proof {
            reveal_strlit(".");
            assert("."@ =~= seq!['.']);
        }
        if part.len() != 0 && !dot {
            let ghost old_r = r@;
            r.push(slice(part, 0, part.len()));
            assert(part@.subrange(0, part@.len() as int) =~= part@);
            assert(views(r@) =~= views(old_r).push(parts@[i as int]@));
        }
        i = i + 1;
    }
    assert(views(parts@).subrange(from as int, i as int) =~= views(parts@).skip(from as int));
    r
}

/// The components of the path `p`.
pub fn components_of(p: &Vec<char>) -> (r: Vec<Vec<char>>)
    ensures
        views(r@) == components(p@),
{
    let parts = split_chars(p, '/');
    let slash = to_chars("/");
    let dot = to_chars(".");
    proof {
        reveal_strlit("/");
        reveal_strlit(".");
        assert(slash@ =~= seq!['/']);
        assert(dot@ =~= seq!['.']);
    }
    if starts_with_chars(p, &slash) {
        let mut r: Vec<Vec<char>> = Vec::new();
        r.push(slash);
        let mut rest = kept_parts_exec(&parts, 1);
        let ghost rest0 = rest@;
        r.append(&mut rest);
        assert(r@ =~= seq![r@[0]] + rest0);
        assert(views(r@) =~= seq![r@[0]@] + views(rest0));
        assert(views(parts@).drop_first() =~= views(parts@).skip(1));
        r
    } else if chars_eq(&parts[0], &dot) {
        let mut r: Vec<Vec<char>> = Vec::new();
        r.push(dot);
        let mut rest = kept_parts_exec(&parts, 1);
        let ghost rest0 = rest@;
        r.append(&mut rest);
        assert(r@ =~= seq![r@[0]] + rest0);
        assert(views(r@) =~= seq![r@[0]@] + views(rest0));
        assert(views(parts@).drop_first() =~= views(parts@).skip(1));
        assert(views(parts@)[0] == parts@[0]@);
        r
    } else {
        let r = kept_parts_exec(&parts, 0);
        assert(views(parts@).skip(0) =~= views(parts@));
        assert(views(parts@)[0] == parts@[0]@);
        r
    }
}

/// Whether the path `p` starts with the path `base`, component by component.
pub fn path_starts_with_chars(p: &Vec<char>, base: &Vec<char>) -> (r: bool)
    ensures
        r == path_starts_with(p@, base@),
{
    let a = components_of(p);
    let b = components_of(base);
    if b.len() > a.len() {
        return false;
    }
    let mut i: usize = 0;
    while i < b.len()
        invariant
            i <= b.len() <= a.len(),
            views(a@) == components(p@),
            views(b@) == components(base@),
            forall|k: int| 0 <= k < i ==> a@[k]@ == b@[k]@,
        decreases b.len() - i,
    {
        if !chars_eq(&a[i], &b[i]) {
            assert(views(a@)[i as int] == a@[i as int]@);
            assert(views(b@)[i as int] == b@[i as int]@);
            assert(views(a@).subrange(0, b.len() as int)[i as int] != views(b@)[i as int]);
            assert(views(a@).subrange(0, b.len() as int) != views(b@));
            return false;
        }
        i = i + 1;
    }
    assert(views(a@).subrange(0, b.len() as int) =~= views(b@));
    true
}

/// `Path::starts_with` on paths held as strings.
pub fn path_starts_with_str(p: &str, base: &str) -> (r: bool)
    ensures
        r == path_starts_with(p@, base@),
{
    let a = to_chars(p);
    let b = to_chars(base);
    path_starts_with_chars(&a, &b)
}

/// Whether a component names a directory entry: not the root, `.` or `..`.
pub open spec fn is_name(c: Seq<char>) -> bool {
    c != seq!['/'] && c != seq!['.'] && c != seq!['.', '.']
}

/// One step of lexical normalisation: `.` is dropped, `..` removes the name
/// before it, stays at the root, and is kept where nothing can be removed.
pub open spec fn normal_step(acc: Seq<Seq<char>>, c: Seq<char>) -> Seq<Seq<char>> {
    if c == seq!['.'] {
        acc
    } else if c == seq!['.', '.'] {
        if acc.len() > 0 && is_name(acc.last()) {
            acc.drop_last()
        } else if acc.len() > 0 && acc.last() == seq!['/'] {
            acc
        } else {
            acc.push(c)
        }
    } else {
        acc.push(c)
    }
}

/// The components left after lexical normalisation, left to right.
pub open spec fn normal_parts(cs: Seq<Seq<char>>) -> Seq<Seq<char>>
    decreases cs.len(),
{
    if cs.len() == 0 {
        seq![]
    } else {
        normal_step(normal_parts(cs.drop_last()), cs.last())
    }
}

/// The components of a path once `.` and `..` are resolved lexically.
pub open spec fn normalized(p: Seq<char>) -> Seq<Seq<char>> {
    normal_parts(components(p))
}

/// Whether the path `p` lies in `base`: after both are normalised, the
/// components of `base` begin those of `p`. So `/w/../x` is not in `/w`.
pub open spec fn path_within(p: Seq<char>, base: Seq<char>) -> bool {
    let a = normalized(p);
    let b = normalized(base);
    b.len() <= a.len() && a.subrange(0, b.len() as int) == b
}

/// The normalised components of the path `p`.
pub fn normalized_of(p: &Vec<char>) -> (r: Vec<Vec<char>>)
    ensures
        views(r@) == normalized(p@),
{
    let cs = components_of(p);
    let dot = to_chars(".");
    let dotdot = to_chars("..");
    let slash = to_chars("/");
    proof {
        reveal_strlit(".");
        reveal_strlit("..");
        reveal_strlit("/");
        assert(dot@ =~= seq!['.']);
        assert(dotdot@ =~= seq!['.', '.']);
        assert(slash@ =~= seq!['/']);
    }
    let mut acc: Vec<Vec<char>> = Vec::new();
    let mut i: usize = 0;
    while i < cs.len()
        invariant
            i <= cs.len(),
            views(cs@) == components(p@),
            dot@ == seq!['.'],
            dotdot@ == seq!['.', '.'],
            slash@ == seq!['/'],
            views(acc@) == normal_parts(views(cs@).take(i as int)),
        decreases cs.len() - i,
    {
        let ghost before = views(cs@).take(i as int);
        let ghost after = views(cs@).take(i + 1);
        assert(after.drop_last() =~= before);
        assert(after.last() == cs@[i as int]@);
        let ghost old_acc = acc@;
        let c = &cs[i];
        if chars_eq(c, &dot) {
        } else if chars_eq(c, &dotdot) {
            let n = acc.len();
            if n > 0 && !chars_eq(&acc[n - 1], &slash) && !chars_eq(&acc[n - 1], &dot)
                && !chars_eq(&acc[n - 1], &dotdot) {
                assert(views(acc@).last() == acc@[n - 1]@);
                acc.pop();
                assert(views(acc@) =~= views(old_acc).drop_last());
            } else if n > 0 && chars_eq(&acc[n - 1], &slash) {
                assert(views(acc@).last() == acc@[n - 1]@);
            } else {
                if n > 0 {
                    assert(views(acc@).last() == acc@[n - 1]@);
                }
                acc.push(slice(c, 0, c.len()));
                assert(c@.subrange(0, c@.len() as int) =~= c@);
                assert(views(acc@) =~= views(old_acc).push(c@));
            }
        } else {
            acc.push(slice(c, 0, c.len()));
            assert(c@.subrange(0, c@.len() as int) =~= c@);
            assert(views(acc@) =~= views(old_acc).push(c@));
        }
        i = i + 1;
    }
    assert(views(cs@).take(i as int) =~= views(cs@));
    acc
}

/// Whether the path `p` lies in `base` once both are normalised.
pub fn path_within_str(p: &str, base: &str) -> (r: bool)
    ensures
        r == path_within(p@, base@),
{
    let a = normalized_of(&to_chars(p));
    let b = normalized_of(&to_chars(base));
    if b.len() > a.len() {
        return false;
    }
    let mut i: usize = 0;
    while i < b.len()
        invariant
            i <= b.len() <= a.len(),
            views(a@) == normalized(p@),
            views(b@) == normalized(base@),
            forall|k: int| 0 <= k < i ==> a@[k]@ == b@[k]@,
        decreases b.len() - i,
    {
        if !chars_eq(&a[i], &b[i]) {
            assert(views(a@)[i as int] == a@[i as int]@);
            assert(views(b@)[i as int] == b@[i as int]@);
            assert(views(a@).subrange(0, b.len() as int)[i as int] != views(b@)[i as int]);
            return false;
        }
        i = i + 1;
    }
    assert(views(a@).subrange(0, b.len() as int) =~= views(b@));
    true
}

/// `Path::is_absolute` on a path held as a string.
pub fn is_absolute_str(p: &str) -> (r: bool)
    ensures
        r == is_absolute(p@),
{
    let v = to_chars(p);
    let slash = to_chars("/");
    proof {
        reveal_strlit("/");
        assert(slash@ =~= seq!['/']);
    }
    starts_with_chars(&v, &slash)
}

/// `Path::join` on paths held as strings.
pub fn join_str(p: &str, q: &str) -> (r: String)
    ensures
        r@ == join(p@, q@),
{
    if is_absolute_str(q) {
        return owned(q);
    }
    let v = to_chars(p);
    let mut r = owned(p);
    if v.len() > 0 && v[v.len() - 1] != '/' {
        r.append("/");
        proof {
            reveal_strlit("/");
        }
    }
    r.append(q);
    r
}

/// `Path::file_name` on Unix: the last component when it is a name, not
/// the root, `.` or `..`.
pub open spec fn file_name(p: Seq<char>) -> Option<Seq<char>> {
    let c = components(p);
    if c.len() > 0 && c.last() != seq!['/'] && c.last() != seq!['.'] && c.last() != seq!['.', '.'] {
        Some(c.last())
    } else {
        None
    }
}

/// The last index below `j` that holds a `.`, or -1.
pub open spec fn last_dot(s: Seq<char>, j: int) -> int
    decreases j,
{
    if j <= 0 || j > s.len() {
        -1
    } else if s[j - 1] == '.' {
        j - 1
    } else {
        last_dot(s, j - 1)
    }
}

/// The extension of a file name: what follows its last `.`, unless there
/// is none or the only one begins the name.
pub open spec fn name_extension(name: Seq<char>) -> Option<Seq<char>> {
    let k = last_dot(name, name.len() as int);
    if k <= 0 {
        None
    } else {
        Some(name.skip(k + 1))
    }
}

/// `Path::extension` on Unix.
pub open spec fn extension(p: Seq<char>) -> Option<Seq<char>> {
    match file_name(p) {
        Some(f) => name_extension(f),
        None => None,
    }
}

/// The file name of a path.
pub fn file_name_of(p: &str) -> (r: Option<String>)
    ensures
        r matches Some(s) ==> file_name(p@) == Some(s@),
        r is None ==> file_name(p@) is None,
{
    let v = to_chars(p);
    let c = components_of(&v);
    if c.len() == 0 {
        return None;
    }
    let last = &c[c.len() - 1];
    assert(views(c@).last() == last@);
    let slash = to_chars("/");
    let dot = to_chars(".");
    let dots = to_chars("..");
    proof {
        reveal_strlit("/");
        reveal_strlit(".");
        reveal_strlit("..");
        assert(slash@ =~= seq!['/']);
        assert(dot@ =~= seq!['.']);
        assert(dots@ =~= seq!['.', '.']);
    }
    if chars_eq(last, &slash) || chars_eq(last, &dot) || chars_eq(last, &dots) {
        None
    } else {
        Some(string_of(last))
    }
}

/// The extension of a path.
pub fn extension_of(p: &str) -> (r: Option<String>)
    ensures
        r matches Some(s) ==> extension(p@) == Some(s@),
        r is None ==> extension(p@) is None,
{
    let name = match file_name_of(p) {
        Some(n) => n,
        None => {
            return None;
        },
    };
    let v = to_chars(name.as_str());
    let mut j: usize = v.len();
    while j > 0 && v[j - 1] != '.'
        invariant
            j <= v.len(),
            last_dot(v@, v@.len() as int) == last_dot(v@, j as int),
        decreases j,
    {
        j = j - 1;
    }
    if j <= 1 {
        None
    } else {
        let e = slice(&v, j, v.len());
        assert(e@ =~= v@.skip(j as int));
        Some(string_of(&e))
    }
}

/// Names joined with `/`.
pub open spec fn join_names(cs: Seq<Seq<char>>) -> Seq<char>
    decreases cs.len(),
{
    if cs.len() == 0 {
        seq![]
    } else if cs.len() == 1 {
        cs[0]
    } else {
        join_names(cs.drop_last()) + seq!['/'] + cs.last()
    }
}

/// `Path::strip_prefix`: when `base`'s components begin `p`'s, the rest of
/// `p`'s components joined with `/`.
pub open spec fn path_strip_prefix(p: Seq<char>, base: Seq<char>) -> Option<Seq<char>> {
    if path_starts_with(p, base) {
        Some(join_names(components(p).skip(components(base).len() as int)))
    } else {
        None
    }
}

/// `Path::strip_prefix` on paths held as strings.
pub fn strip_path_prefix(p: &str, base: &str) -> (r: Option<String>)
    ensures
        r matches Some(s) ==> path_strip_prefix(p@, base@) == Some(s@),
        r is None ==> path_strip_prefix(p@, base@) is None,
{
    if !path_starts_with_str(p, base) {
        return None;
    }
    let a = components_of(&to_chars(p));
    let b = components_of(&to_chars(base));
    let ghost rest = views(a@).skip(b@.len() as int);
    let mut out: Vec<char> = Vec::new();
    let mut i: usize = b.len();
    assert(b@.len() == components(base@).len());
    while i < a.len()
        invariant
            b.len() <= i <= a.len(),
            views(a@) == components(p@),
            rest == views(a@).skip(b@.len() as int),
            out@ == join_names(rest.take(i - b.len())),
        decreases a.len() - i,
    {
        let ghost before = rest.take(i - b.len());
        assert(rest.take(i - b.len() + 1).drop_last() =~= before);
        assert(rest.take(i - b.len() + 1).last() == a@[i as int]@);
        if i > b.len() {
            out.push('/');
        }
        let mut k: usize = 0;
        let ghost start = out@;
        while k < a[i].len()
            invariant
                k <= a@[i as int]@.len(),
                i < a@.len(),
                out@ == start + a@[i as int]@.take(k as int),
            decreases a@[i as int]@.len() - k,
        {
            out.push(a[i][k]);
            assert(a@[i as int]@.take(k + 1) =~= a@[i as int]@.take(k as int).push(a@[i as int]@[k as int]));
            k = k + 1;
        }
        assert(a@[i as int]@.take(k as int) =~= a@[i as int]@);
        i = i + 1;
    }
    assert(rest.take(i - b.len()) =~= rest);
    Some(string_of(&out))
}

} // verus!
