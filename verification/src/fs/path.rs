use vstd::prelude::*;
use vstd::string::StrSliceExecFns;
use crate::codec::string_push;

verus! {

/// `s` split at every '/', as `str::split` does: n separators give n + 1
/// pieces, empty ones included.
pub open spec fn split_on_sep(s: Seq<char>) -> Seq<Seq<char>>
    decreases s.len(),
{
    if s.len() == 0 {
        seq![Seq::<char>::empty()]
    } else {
        let rest = split_on_sep(s.drop_last());
        if s.last() == '/' {
            rest.push(Seq::<char>::empty())
        } else {
            rest.update(rest.len() - 1, rest.last().push(s.last()))
        }
    }
}

/// The non-empty pieces, in order.
pub open spec fn nonempty_parts(parts: Seq<Seq<char>>) -> Seq<Seq<char>>
    decreases parts.len(),
{
    if parts.len() == 0 {
        parts
    } else if parts.last().len() > 0 {
        nonempty_parts(parts.drop_last()).push(parts.last())
    } else {
        nonempty_parts(parts.drop_last())
    }
}

/// The names of a path: its non-empty '/'-separated components.
pub open spec fn path_names(s: Seq<char>) -> Seq<Seq<char>> {
    nonempty_parts(split_on_sep(s))
}

pub open spec fn is_abs_path(s: Seq<char>) -> bool {
    s.len() > 0 && s[0] == '/'
}

pub open spec fn dot() -> Seq<char> {
    seq!['.']
}

pub open spec fn dot_dot() -> Seq<char> {
    seq!['.', '.']
}

/// One step of resolving components: "." is dropped; ".." removes the last
/// kept name unless that is "..", is dropped at the root of an absolute
/// path, and is kept otherwise; other names are kept.
pub open spec fn resolve_step(acc: Seq<Seq<char>>, part: Seq<char>, is_abs: bool) -> Seq<Seq<char>> {
    if part == dot() {
        acc
    } else if part == dot_dot() {
        if acc.len() > 0 && acc.last() != dot_dot() {
            acc.drop_last()
        } else if is_abs {
            acc
        } else {
            acc.push(part)
        }
    } else {
        acc.push(part)
    }
}

/// The components left after resolving "." and "..".
pub open spec fn resolve_parts(parts: Seq<Seq<char>>, is_abs: bool) -> Seq<Seq<char>>
    decreases parts.len(),
{
    if parts.len() == 0 {
        parts
    } else {
        resolve_step(resolve_parts(parts.drop_last(), is_abs), parts.last(), is_abs)
    }
}

/// The components joined with '/'.
pub open spec fn join_slash(parts: Seq<Seq<char>>) -> Seq<char>
    decreases parts.len(),
{
    if parts.len() == 0 {
        Seq::empty()
    } else if parts.len() == 1 {
        parts[0]
    } else {
        join_slash(parts.drop_last()) + seq!['/'] + parts.last()
    }
}

/// The normal form of a path: its resolved names joined with '/', led by
/// '/' when the path is absolute.
pub open spec fn normalize_chars(s: Seq<char>) -> Seq<char> {
    let parts = resolve_parts(path_names(s), is_abs_path(s));
    if is_abs_path(s) {
        seq!['/'] + join_slash(parts)
    } else {
        join_slash(parts)
    }
}

/// The parent of a path, computed from its normal form.
pub open spec fn parent_chars(s: Seq<char>) -> Seq<char> {
    let n = normalize_chars(s);
    if n == seq!['/'] {
        n
    } else {
        let names = path_names(n);
        let parts = if names.len() > 0 { names.drop_last() } else { names };
        if is_abs_path(s) {
            seq!['/'] + join_slash(parts)
        } else if join_slash(parts).len() == 0 {
            dot()
        } else {
            join_slash(parts)
        }
    }
}

/// `s` with the prefix `p` and then one '/' removed, when `s` starts with
/// `p`.
pub open spec fn strip_with_sep(s: Seq<char>, p: Seq<char>) -> Option<Seq<char>> {
    if p.len() <= s.len() && s.subrange(0, p.len() as int) == p {
        let rest = s.skip(p.len() as int);
        if rest.len() > 0 && rest[0] == '/' {
            Some(rest.skip(1))
        } else {
            Some(rest)
        }
    } else {
        None
    }
}

/// The difference of two paths: what remains of one after the other when
/// one starts with the other, else the first path unchanged.
pub open spec fn diff_chars(s: Seq<char>, o: Seq<char>) -> Seq<char> {
    match strip_with_sep(s, o) {
        Some(r) => r,
        None => match strip_with_sep(o, s) {
            Some(r) => r,
            None => s,
        },
    }
}

/// `p` is a prefix of `s`, character by character.
pub open spec fn starts_with(s: Seq<char>, p: Seq<char>) -> bool {
    p.len() <= s.len() && forall|k: int| 0 <= k < p.len() ==> s[k] == p[k]
}

/// The difference of two paths: when neither starts with the other it is
/// the first path itself; when the first starts with the second, the first
/// is the second followed by the difference, with or without one '/'
/// between them; when only the second starts with the first, likewise the
/// other way round.
pub proof fn lemma_diff(s: Seq<char>, o: Seq<char>)
    ensures
        !starts_with(s, o) && !starts_with(o, s) ==> diff_chars(s, o) == s,
        starts_with(s, o) ==> s == o + diff_chars(s, o) || s == o + seq!['/'] + diff_chars(s, o),
        !starts_with(s, o) && starts_with(o, s) ==> o == s + diff_chars(s, o) || o == s + seq!['/']
            + diff_chars(s, o),
{
    lemma_strip(s, o);
    lemma_strip(o, s);
}

proof fn lemma_strip(s: Seq<char>, p: Seq<char>)
    ensures
        strip_with_sep(s, p) is Some <==> starts_with(s, p),
        strip_with_sep(s, p) matches Some(r) ==> s == p + r || s == p + seq!['/'] + r,
{
    if starts_with(s, p) {
        assert(s.subrange(0, p.len() as int) =~= p);
        let rest = s.skip(p.len() as int);
        assert(s =~= p + rest);
        if rest.len() > 0 && rest[0] == '/' {
            assert(rest =~= seq!['/'] + rest.skip(1));
            assert(s =~= p + seq!['/'] + rest.skip(1));
        }
    } else if p.len() <= s.len() && s.subrange(0, p.len() as int) == p {
        assert forall|k: int| 0 <= k < p.len() implies s[k] == p[k] by {
            assert(s.subrange(0, p.len() as int)[k] == p[k]);
        }
    }
}

/// The root has no names.
pub proof fn lemma_root_names()
    ensures
        path_names(seq!['/']) == Seq::<Seq<char>>::empty(),
        name_chars(seq!['/']) == seq!['/'],
{
    let e = Seq::<char>::empty();
    let none = Seq::<Seq<char>>::empty();
    assert(seq!['/'].drop_last() =~= e);
    assert(seq!['/'].last() == '/');
    assert(split_on_sep(e) =~= seq![e]);
    assert(split_on_sep(seq!['/']) == split_on_sep(e).push(e));
    assert(split_on_sep(seq!['/']) =~= seq![e, e]);
    assert(seq![e, e].drop_last() =~= seq![e]);
    assert(seq![e].drop_last() =~= none);
    assert(nonempty_parts(none) == none);
    assert(seq![e].last() == e);
    assert(nonempty_parts(seq![e]) == nonempty_parts(none));
    assert(seq![e, e].last() == e);
    assert(nonempty_parts(seq![e, e]) == nonempty_parts(seq![e]));
}

/// `x` holds no '/'.
pub open spec fn no_slash(x: Seq<char>) -> bool {
    forall|k: int| 0 <= k < x.len() ==> x[k] != '/'
}

/// Names as a path holds them: non-empty, without '/'.
pub open spec fn clean_names(parts: Seq<Seq<char>>) -> bool {
    forall|i: int| 0 <= i < parts.len() ==> #[trigger] parts[i].len() > 0 && no_slash(parts[i])
}

/// Names left by resolving: no ".", and ".." only at the front of a
/// relative path.
pub open spec fn resolved_names(q: Seq<Seq<char>>, is_abs: bool) -> bool {
    forall|i: int|
        0 <= i < q.len() ==> #[trigger] q[i] != dot() && (q[i] == dot_dot() ==> !is_abs && forall|j: int|
            0 <= j < i ==> q[j] == dot_dot())
}

proof fn lemma_split_len(s: Seq<char>)
    ensures
        split_on_sep(s).len() >= 1,
        forall|i: int| 0 <= i < split_on_sep(s).len() ==> no_slash(#[trigger] split_on_sep(s)[i]),
    decreases s.len(),
{
    if s.len() > 0 {
        lemma_split_len(s.drop_last());
        let rest = split_on_sep(s.drop_last());
        if s.last() != '/' {
            assert(no_slash(rest.last()));
            assert(no_slash(rest.last().push(s.last())));
        }
    }
}

/// Splitting `s` followed by a slash-free `t` extends the last piece.
proof fn lemma_split_append(s: Seq<char>, t: Seq<char>)
    requires
        no_slash(t),
    ensures
        split_on_sep(s + t) == split_on_sep(s).update(
            split_on_sep(s).len() - 1,
            split_on_sep(s).last() + t,
        ),
    decreases t.len(),
{
    lemma_split_len(s);
    if t.len() == 0 {
        assert(s + t =~= s);
        assert(split_on_sep(s).last() + t =~= split_on_sep(s).last());
        assert(split_on_sep(s).update(split_on_sep(s).len() - 1, split_on_sep(s).last()) =~= split_on_sep(s));
    } else {
        let t2 = t.drop_last();
        assert(no_slash(t2));
        lemma_split_append(s, t2);
        assert((s + t).drop_last() =~= s + t2);
        assert((s + t).last() == t.last());
        lemma_split_len(s + t2);
        assert(split_on_sep(s).last() + t2 + seq![t.last()] =~= split_on_sep(s).last() + t);
        assert((split_on_sep(s).last() + t2).push(t.last()) =~= split_on_sep(s).last() + t);
        assert(split_on_sep(s + t) =~= split_on_sep(s).update(split_on_sep(s).len() - 1, split_on_sep(s).last() + t));
    }
}

/// Joining slash-free pieces with '/' and splitting again gives them back.
proof fn lemma_split_join(parts: Seq<Seq<char>>)
    requires
        parts.len() >= 1,
        forall|i: int| 0 <= i < parts.len() ==> no_slash(#[trigger] parts[i]),
    ensures
        split_on_sep(join_slash(parts)) == parts,
    decreases parts.len(),
{
    let e = Seq::<char>::empty();
    if parts.len() == 1 {
        assert(no_slash(parts[0]));
        lemma_split_append(e, parts[0]);
        assert(e + parts[0] =~= parts[0]);
        assert(split_on_sep(e) =~= seq![e]);
        assert(e + parts[0] =~= parts[0]);
        assert(seq![e].update(0, e + parts[0]) =~= parts);
    } else {
        let init = parts.drop_last();
        assert forall|i: int| 0 <= i < init.len() implies no_slash(#[trigger] init[i]) by {
            assert(no_slash(parts[i]));
        }
        lemma_split_join(init);
        let j = join_slash(init);
        assert(no_slash(parts.last()));
        let js = j.push('/');
        assert(js.drop_last() =~= j);
        assert(split_on_sep(js) == split_on_sep(j).push(e));
        lemma_split_append(js, parts.last());
        assert(j + seq!['/'] + parts.last() =~= js + parts.last());
        assert(e + parts.last() =~= parts.last());
        assert(init.push(e).update(init.len() as int, e + parts.last()) =~= parts);
    }
}

/// A leading empty piece joins as a leading '/'.
proof fn lemma_join_lead(parts: Seq<Seq<char>>)
    requires
        parts.len() >= 1,
    ensures
        join_slash(seq![Seq::<char>::empty()] + parts) == seq!['/'] + join_slash(parts),
    decreases parts.len(),
{
    let e = Seq::<char>::empty();
    let q = seq![e] + parts;
    if parts.len() == 1 {
        assert(q.drop_last() =~= seq![e]);
        assert(join_slash(q) == join_slash(seq![e]) + seq!['/'] + parts.last());
        assert(join_slash(seq![e]) == e);
        assert(e + seq!['/'] + parts[0] =~= seq!['/'] + parts[0]);
    } else {
        lemma_join_lead(parts.drop_last());
        assert(q.drop_last() =~= seq![e] + parts.drop_last());
        assert(seq!['/'] + join_slash(parts.drop_last()) + seq!['/'] + parts.last() =~= seq!['/'] + (join_slash(
            parts.drop_last(),
        ) + seq!['/'] + parts.last()));
    }
}

proof fn lemma_nonempty_lead(parts: Seq<Seq<char>>)
    requires
        forall|i: int| 0 <= i < parts.len() ==> (#[trigger] parts[i]).len() > 0,
    ensures
        nonempty_parts(seq![Seq::<char>::empty()] + parts) == parts,
        nonempty_parts(parts) == parts,
    decreases parts.len(),
{
    let e = Seq::<char>::empty();
    if parts.len() == 0 {
        assert(seq![e] + parts =~= seq![e]);
        assert(seq![e].drop_last() =~= Seq::<Seq<char>>::empty());
        assert(seq![e].last() == e);
        assert(nonempty_parts(seq![e]) == nonempty_parts(Seq::<Seq<char>>::empty()));
        assert(parts =~= Seq::<Seq<char>>::empty());
    } else {
        lemma_nonempty_lead(parts.drop_last());
        assert((seq![e] + parts).drop_last() =~= seq![e] + parts.drop_last());
        assert(parts.last().len() > 0);
        assert(parts.drop_last().push(parts.last()) =~= parts);
    }
}

/// The names of joined clean names, with or without a leading '/', are
/// those names.
pub proof fn lemma_names_of_join(parts: Seq<Seq<char>>)
    requires
        clean_names(parts),
    ensures
        path_names(join_slash(parts)) == parts,
        path_names(seq!['/'] + join_slash(parts)) == parts,
{
    let e = Seq::<char>::empty();
    assert forall|i: int| 0 <= i < parts.len() implies (#[trigger] parts[i]).len() > 0 by {
        assert(clean_names(parts));
    }
    lemma_nonempty_lead(parts);
    if parts.len() == 0 {
        assert(split_on_sep(e) =~= seq![e]);
        assert(seq![e].drop_last() =~= parts);
        assert(seq!['/'] + join_slash(parts) =~= seq!['/']);
        lemma_root_names();
    } else {
        assert forall|i: int| 0 <= i < parts.len() implies no_slash(#[trigger] parts[i]) by {
            assert(clean_names(parts));
        }
        lemma_split_join(parts);
        let q = seq![e] + parts;
        assert forall|i: int| 0 <= i < q.len() implies no_slash(#[trigger] q[i]) by {
            if i > 0 {
                assert(q[i] == parts[i - 1]);
            }
        }
        lemma_split_join(q);
        lemma_join_lead(parts);
    }
}

proof fn lemma_path_names_clean(s: Seq<char>)
    ensures
        clean_names(path_names(s)),
{
    lemma_split_len(s);
    lemma_nonempty_clean(split_on_sep(s));
}

proof fn lemma_nonempty_clean(parts: Seq<Seq<char>>)
    requires
        forall|i: int| 0 <= i < parts.len() ==> no_slash(#[trigger] parts[i]),
    ensures
        clean_names(nonempty_parts(parts)),
    decreases parts.len(),
{
    if parts.len() > 0 {
        let init = parts.drop_last();
        assert forall|i: int| 0 <= i < init.len() implies no_slash(#[trigger] init[i]) by {
            assert(no_slash(parts[i]));
        }
        lemma_nonempty_clean(init);
        assert(no_slash(parts[parts.len() - 1]));
    }
}

/// Resolving clean names gives clean, resolved names; resolved names
/// resolve to themselves.
proof fn lemma_resolve(parts: Seq<Seq<char>>, is_abs: bool)
    requires
        clean_names(parts),
    ensures
        clean_names(resolve_parts(parts, is_abs)),
        resolved_names(resolve_parts(parts, is_abs), is_abs),
    decreases parts.len(),
{
    if parts.len() > 0 {
        let init = parts.drop_last();
        assert forall|i: int| 0 <= i < init.len() implies #[trigger] init[i].len() > 0 && no_slash(init[i]) by {
            assert(parts[i].len() > 0 && no_slash(parts[i]));
        }
        lemma_resolve(init, is_abs);
        let acc = resolve_parts(init, is_abs);
        let part = parts.last();
        assert(part.len() > 0 && no_slash(part));
        let r = resolve_step(acc, part, is_abs);
        if part == dot_dot() && acc.len() > 0 && acc.last() != dot_dot() {
            assert forall|i: int| 0 <= i < r.len() implies #[trigger] r[i].len() > 0 && no_slash(r[i]) by {
                assert(r[i] == acc[i]);
            }
            assert forall|i: int| 0 <= i < r.len() implies #[trigger] r[i] != dot() && (r[i] == dot_dot() ==> !is_abs
                && forall|j: int| 0 <= j < i ==> r[j] == dot_dot()) by {
                assert(r[i] == acc[i]);
                assert forall|j: int| 0 <= j < i implies r[j] == acc[j] by {}
            }
        } else if part != dot() && !(part == dot_dot() && is_abs) {
            if part == dot_dot() {
                assert forall|j: int| 0 <= j < acc.len() implies acc[j] == dot_dot() by {
                    assert(acc[acc.len() - 1] == dot_dot());
                }
            }
            assert forall|i: int| 0 <= i < r.len() implies #[trigger] r[i] != dot() && (r[i] == dot_dot() ==> !is_abs
                && forall|j: int| 0 <= j < i ==> r[j] == dot_dot()) by {
                if i < acc.len() {
                    assert(r[i] == acc[i]);
                    assert forall|j: int| 0 <= j < i implies r[j] == acc[j] by {}
                }
            }
        }
    }
}

proof fn lemma_resolve_resolved(q: Seq<Seq<char>>, is_abs: bool)
    requires
        resolved_names(q, is_abs),
    ensures
        resolve_parts(q, is_abs) == q,
    decreases q.len(),
{
    if q.len() > 0 {
        let init = q.drop_last();
        assert forall|i: int| 0 <= i < init.len() implies #[trigger] init[i] != dot() && (init[i] == dot_dot() ==> !is_abs
            && forall|j: int| 0 <= j < i ==> init[j] == dot_dot()) by {
            assert(q[i] != dot() && (q[i] == dot_dot() ==> !is_abs && forall|j: int| 0 <= j < i ==> q[j] == dot_dot()));
        }
        lemma_resolve_resolved(init, is_abs);
        let last = q[q.len() - 1];
        assert(last != dot());
        if last == dot_dot() && init.len() > 0 {
            assert(init.last() == q[init.len() - 1]);
        }
        assert(init.push(last) =~= q);
    }
}

/// A join of clean names starts with the first name's first character.
proof fn lemma_join_first(parts: Seq<Seq<char>>)
    requires
        clean_names(parts),
        parts.len() > 0,
    ensures
        join_slash(parts).len() > 0 && join_slash(parts)[0] == parts[0][0],
    decreases parts.len(),
{
    assert(parts[0].len() > 0);
    if parts.len() > 1 {
        let init = parts.drop_last();
        assert forall|i: int| 0 <= i < init.len() implies #[trigger] init[i].len() > 0 && no_slash(init[i]) by {
            assert(parts[i].len() > 0 && no_slash(parts[i]));
        }
        lemma_join_first(init);
    }
}

/// `s` holds no two '/' in a row.
pub open spec fn no_double_slash(s: Seq<char>) -> bool {
    forall|k: int| 0 <= k < s.len() - 1 ==> !(#[trigger] s[k] == '/' && s[k + 1] == '/')
}

/// Clean names joined with '/' neither start nor end with '/' and hold no
/// two '/' in a row.
proof fn lemma_join_shape(parts: Seq<Seq<char>>)
    requires
        clean_names(parts),
    ensures
        parts.len() > 0 ==> join_slash(parts).len() > 0 && join_slash(parts)[0] != '/' && join_slash(parts).last()
            != '/',
        no_double_slash(join_slash(parts)),
    decreases parts.len(),
{
    if parts.len() == 1 {
        assert(parts[0].len() > 0 && no_slash(parts[0]));
    } else if parts.len() > 1 {
        let init = parts.drop_last();
        assert forall|i: int| 0 <= i < init.len() implies #[trigger] init[i].len() > 0 && no_slash(init[i]) by {
            assert(parts[i].len() > 0 && no_slash(parts[i]));
        }
        lemma_join_shape(init);
        let j1 = join_slash(init);
        let last = parts.last();
        assert(last.len() > 0 && no_slash(last));
        let j = join_slash(parts);
        assert(j == j1 + seq!['/'] + last);
        assert forall|k: int| 0 <= k < j.len() - 1 implies !(#[trigger] j[k] == '/' && j[k + 1] == '/') by {
            if k < j1.len() - 1 {
                assert(j[k] == j1[k] && j[k + 1] == j1[k + 1]);
            } else if k == j1.len() - 1 {
                assert(j[k] == j1.last());
            } else if k == j1.len() {
                assert(j[k + 1] == last[0]);
            } else {
                assert(j[k] == last[k - j1.len() - 1]);
            }
        }
        assert(j[0] == j1[0]);
        assert(j.last() == last.last());
    }
}

/// An absolute path spelled from clean, resolved names is in normal form:
/// its names are those names, its parent drops the last, and its name is
/// the last.
pub proof fn lemma_abs_names(p: Seq<Seq<char>>)
    requires
        clean_names(p),
        resolved_names(p, true),
    ensures
        normalize_chars(seq!['/'] + join_slash(p)) == seq!['/'] + join_slash(p),
        path_names(seq!['/'] + join_slash(p)) == p,
        is_abs_path(seq!['/'] + join_slash(p)),
        p.len() > 0 ==> parent_chars(seq!['/'] + join_slash(p)) == seq!['/'] + join_slash(p.drop_last()),
        p.len() > 0 ==> name_chars(seq!['/'] + join_slash(p)) == p.last(),
{
    lemma_names_of_join(p);
    lemma_resolve_resolved(p, true);
    let s = seq!['/'] + join_slash(p);
    assert(s[0] == '/');
    if p.len() > 0 {
        if seq!['/'] + join_slash(p) == seq!['/'] {
            assert(path_names(seq!['/']) == p) by {}
            lemma_root_names();
        }
    }
}

/// What `Path::join` gives for `base` and `name`.
pub open spec fn joined(base: Seq<char>, name: Seq<char>) -> Seq<char> {
    normalize_chars(if base.len() > 0 && base.last() == '/' { base + name } else { base.push('/') + name })
}

/// Joining a plain name (non-empty, no '/', not "." or "..") onto an
/// absolute path in normal form gives a path in normal form whose name is
/// that name and whose parent is the path joined onto.
pub proof fn lemma_join_parent_name(base: Seq<char>, name: Seq<char>)
    requires
        is_abs_path(base),
        normalize_chars(base) == base,
        name.len() > 0,
        no_slash(name),
        name != dot(),
        name != dot_dot(),
    ensures
        name_chars(joined(base, name)) == name,
        parent_chars(joined(base, name)) == base,
        normalize_chars(joined(base, name)) == joined(base, name),
{
    lemma_normalize_idempotent(base);
    let p = resolve_parts(path_names(base), true);
    lemma_path_names_clean(base);
    lemma_resolve(path_names(base), true);
    assert(base == seq!['/'] + join_slash(p));
    let q = p.push(name);
    assert forall|i: int| 0 <= i < q.len() implies #[trigger] q[i].len() > 0 && no_slash(q[i]) by {
        if i < p.len() {
            assert(q[i] == p[i]);
        }
    }
    assert forall|i: int| 0 <= i < q.len() implies #[trigger] q[i] != dot() && (q[i] == dot_dot() ==> !true
        && forall|j: int| 0 <= j < i ==> q[j] == dot_dot()) by {
        if i < p.len() {
            assert(q[i] == p[i]);
        }
    }
    lemma_abs_names(q);
    assert(q.drop_last() =~= p);
    lemma_join_shape(p);
    if p.len() == 0 {
        assert(base =~= seq!['/']);
        assert(join_slash(q) == name);
        assert(base + name =~= seq!['/'] + join_slash(q));
    } else {
        assert(base.last() == join_slash(p).last());
        assert(join_slash(q) == join_slash(p) + seq!['/'] + name);
        assert(base.push('/') + name =~= seq!['/'] + join_slash(q));
    }
}

/// Normalizing is idempotent and keeps a path absolute or relative; the
/// names of a normal form are non-empty, hold no '/' and no ".", and ".."
/// occurs only at the front of a relative path.
pub proof fn lemma_normalize_idempotent(s: Seq<char>)
    ensures
        normalize_chars(normalize_chars(s)) == normalize_chars(s),
        is_abs_path(normalize_chars(s)) == is_abs_path(s),
        clean_names(path_names(normalize_chars(s))),
        resolved_names(path_names(normalize_chars(s)), is_abs_path(s)),
        no_double_slash(normalize_chars(s)),
        normalize_chars(s).len() > 0 && normalize_chars(s).last() == '/' ==> normalize_chars(s) == seq!['/'],
{
    let abs = is_abs_path(s);
    lemma_path_names_clean(s);
    let p = resolve_parts(path_names(s), abs);
    lemma_resolve(path_names(s), abs);
    lemma_names_of_join(p);
    lemma_resolve_resolved(p, abs);
    let n = normalize_chars(s);
    lemma_join_shape(p);
    if abs {
        assert(n[0] == '/');
        assert(is_abs_path(n));
        let j = join_slash(p);
        assert(n == seq!['/'] + j);
        assert forall|k: int| 0 <= k < n.len() - 1 implies !(#[trigger] n[k] == '/' && n[k + 1] == '/') by {
            if k == 0 {
                assert(n[1] == j[0]);
            } else {
                assert(n[k] == j[k - 1] && n[k + 1] == j[k]);
            }
        }
        if p.len() > 0 {
            assert(n.last() == j.last());
        } else {
            assert(n =~= seq!['/']);
        }
    } else {
        if p.len() > 0 {
            lemma_join_first(p);
            assert(p[0].len() > 0 && no_slash(p[0]));
            assert(n[0] != '/');
        }
        assert(!is_abs_path(n));
    }
}

/// The last name of a path, or "/" when it has none.
pub open spec fn name_chars(s: Seq<char>) -> Seq<char> {
    if path_names(s).len() > 0 {
        path_names(s).last()
    } else {
        seq!['/']
    }
}

pub open spec fn parts_view(v: Seq<Vec<char>>) -> Seq<Seq<char>> {
    v.map_values(|x: Vec<char>| x@)
}

pub(crate) fn chars_of(s: &str) -> (res: Vec<char>)
    ensures
        res@ == s@,
{
    let n = s.unicode_len();
    let mut v: Vec<char> = Vec::new();
    let mut i: usize = 0;
    while i < n
        invariant
            n == s@.len(),
            i <= n,
            v@ == s@.take(i as int),
        decreases n - i,
    {
        v.push(s.get_char(i));
        i = i + 1;
        assert(v@ =~= s@.take(i as int));
    }
    assert(s@.take(n as int) =~= s@);
    v
}

fn string_of(cs: &Vec<char>) -> (res: String)
    ensures
        res@ == cs@,
{
    let mut s = String::new();
    let mut i: usize = 0;
    while i < cs.len()
        invariant
            i <= cs@.len(),
            s@ == cs@.take(i as int),
        decreases cs.len() - i,
    {
        string_push(&mut s, cs[i]);
        i = i + 1;
        assert(s@ =~= cs@.take(i as int));
    }
    assert(cs@.take(cs@.len() as int) =~= cs@);
    s
}

fn copy_chars(cs: &Vec<char>) -> (res: Vec<char>)
    ensures
        res@ == cs@,
{
    let mut v: Vec<char> = Vec::new();
    let mut i: usize = 0;
    while i < cs.len()
        invariant
            i <= cs@.len(),
            v@ == cs@.take(i as int),
        decreases cs.len() - i,
    {
        v.push(cs[i]);
        i = i + 1;
        assert(v@ =~= cs@.take(i as int));
    }
    assert(cs@.take(cs@.len() as int) =~= cs@);
    v
}

fn chars_eq(a: &Vec<char>, b: &Vec<char>) -> (res: bool)
    ensures
        res == (a@ == b@),
{
    if a.len() != b.len() {
        return false;
    }
    let mut i: usize = 0;
    while i < a.len()
        invariant
            a@.len() == b@.len(),
            i <= a@.len(),
            forall|j: int| 0 <= j < i ==> a@[j] == b@[j],
        decreases a.len() - i,
    {
        if a[i] != b[i] {
            return false;
        }
        i = i + 1;
    }
    assert(a@ =~= b@);
    true
}

fn split_sep(cs: &Vec<char>) -> (res: Vec<Vec<char>>)
    ensures
        parts_view(res@) == split_on_sep(cs@),
{
    let mut segs: Vec<Vec<char>> = Vec::new();
    segs.push(Vec::new());
    let mut i: usize = 0;
    assert(cs@.take(0) =~= Seq::<char>::empty());
    assert(parts_view(segs@) =~= seq![Seq::<char>::empty()]);
    while i < cs.len()
        invariant
            i <= cs@.len(),
            segs@.len() > 0,
            parts_view(segs@) == split_on_sep(cs@.take(i as int)),
        decreases cs.len() - i,
    {
        let ghost before = parts_view(segs@);
        let c = cs[i];
        assert(cs@.take(i + 1).drop_last() =~= cs@.take(i as int));
        if c == '/' {
            segs.push(Vec::new());
            assert(parts_view(segs@) =~= before.push(Seq::<char>::empty()));
        } else {
            let mut last = segs.pop().unwrap();
            last.push(c);
            segs.push(last);
            assert(parts_view(segs@) =~= before.update(before.len() - 1, before.last().push(c)));
        }
        i = i + 1;
    }
    assert(cs@.take(cs@.len() as int) =~= cs@);
    segs
}

fn keep_nonempty(parts: Vec<Vec<char>>) -> (res: Vec<Vec<char>>)
    ensures
        parts_view(res@) == nonempty_parts(parts_view(parts@)),
{
    let mut out: Vec<Vec<char>> = Vec::new();
    let mut parts = parts;
    let ghost all = parts_view(parts@);
    let n = parts.len();
    let mut rest: Vec<Vec<char>> = Vec::new();
    // take the parts in order by reversing once
    while parts.len() > 0
        invariant
            parts_view(parts@) + parts_view(rest@).reverse() == all,
            all.len() == n,
        decreases parts.len(),
    {
        let ghost pv = parts_view(parts@);
        let ghost rv = parts_view(rest@);
        let p = parts.pop().unwrap();
        rest.push(p);
        assert(parts_view(rest@) =~= rv.push(pv.last()));
        assert(parts_view(rest@).reverse() =~= seq![pv.last()] + rv.reverse());
        assert(pv =~= parts_view(parts@).push(pv.last()));
    }
    assert(parts_view(rest@).reverse() =~= all);
    let mut k: usize = 0;
    while rest.len() > 0
        invariant
            k <= all.len(),
            all.len() <= usize::MAX,
            k + rest@.len() == all.len(),
            parts_view(rest@).reverse() == all.skip(k as int),
            parts_view(out@) == nonempty_parts(all.take(k as int)),
        decreases rest.len(),
    {
        let ghost rv = parts_view(rest@);
        let ghost ov = parts_view(out@);
        assert(k < all.len());
        let p = rest.pop().unwrap();
        assert(rv =~= parts_view(rest@).push(p@));
        assert(rv.reverse() =~= seq![p@] + parts_view(rest@).reverse());
        assert(all.skip(k as int).skip(1) =~= all.skip(k + 1));
        assert(rv.reverse()[0] == rv.last());
        assert(all.take(k + 1).drop_last() =~= all.take(k as int));
        assert(all.take(k + 1).last() == all[k as int]);
        assert(all.skip(k as int)[0] == all[k as int]);
        assert(parts_view(rest@).reverse() =~= all.skip(k + 1));
        if p.len() > 0 {
            out.push(p);
            assert(parts_view(out@) =~= ov.push(all[k as int]));
        }
        k = k + 1;
    }
    assert(all.take(all.len() as int) =~= all);
    out
}

fn resolve(parts: Vec<Vec<char>>, is_abs: bool) -> (res: Vec<Vec<char>>)
    ensures
        parts_view(res@) == resolve_parts(parts_view(parts@), is_abs),
{
    let ghost all = parts_view(parts@);
    let mut acc: Vec<Vec<char>> = Vec::new();
    let dot_v: Vec<char> = vec!['.'];
    let dot_dot_v: Vec<char> = vec!['.', '.'];
    assert(dot_v@ =~= dot());
    assert(dot_dot_v@ =~= dot_dot());
    let mut i: usize = 0;
    while i < parts.len()
        invariant
            i <= parts@.len(),
            all == parts_view(parts@),
            dot_v@ == dot(),
            dot_dot_v@ == dot_dot(),
            parts_view(acc@) == resolve_parts(all.take(i as int), is_abs),
        decreases parts.len() - i,
    {
        let ghost av = parts_view(acc@);
        let part = &parts[i];
        assert(all.take(i + 1).drop_last() =~= all.take(i as int));
        assert(all.take(i + 1).last() == part@);
        if chars_eq(part, &dot_v) {
        } else if chars_eq(part, &dot_dot_v) {
            let keep_last_is_dd = acc.len() > 0 && chars_eq(&acc[acc.len() - 1], &dot_dot_v);
            if acc.len() > 0 && !keep_last_is_dd {
                acc.pop();
                assert(parts_view(acc@) =~= av.drop_last());
            } else if is_abs {
            } else {
                acc.push(copy_chars(part));
                assert(parts_view(acc@) =~= av.push(part@));
            }
        } else {
            acc.push(copy_chars(part));
            assert(parts_view(acc@) =~= av.push(part@));
        }
        i = i + 1;
    }
    assert(all.take(all.len() as int) =~= all);
    acc
}

fn join_parts(parts: &Vec<Vec<char>>, out: &mut Vec<char>)
    ensures
        final(out)@ == old(out)@ + join_slash(parts_view(parts@)),
{
    let ghost all = parts_view(parts@);
    let ghost start = out@;
    let mut j: usize = 0;
    while j < parts.len()
        invariant
            j <= parts@.len(),
            all == parts_view(parts@),
            out@ == start + join_slash(all.take(j as int)),
        decreases parts.len() - j,
    {
        let ghost prev = out@;
        assert(all.take(j + 1).drop_last() =~= all.take(j as int));
        if j > 0 {
            out.push('/');
        }
        let part = &parts[j];
        let mut k: usize = 0;
        let ghost mid = out@;
        while k < part.len()
            invariant
                k <= part@.len(),
                out@ == mid + part@.take(k as int),
            decreases part.len() - k,
        {
            out.push(part[k]);
            k = k + 1;
            assert(out@ =~= mid + part@.take(k as int));
        }
        assert(part@.take(part@.len() as int) =~= part@);
        j = j + 1;
        if j == 1 {
            assert(all.take(1) =~= seq![part@]);
            assert(join_slash(all.take(1)) == part@);
            assert(out@ =~= start + join_slash(all.take(j as int)));
        } else {
            assert(out@ =~= start + join_slash(all.take(j as int)));
        }
    }
    assert(all.take(all.len() as int) =~= all);
}

/// A file system path.
#[derive(Debug, Clone)]
pub struct Path(pub String);

impl View for Path {
    type V = Seq<char>;

    open spec fn view(&self) -> Seq<char> {
        self.0@
    }
}

impl Path {
    pub const ROOT: &'static str = "/";
    pub const SEPARATOR: char = '/';
    pub const CURRENT_DIR: &'static str = ".";
    pub const PARENT_DIR: &'static str = "..";

    pub fn new(path: &str) -> (res: Self)
        ensures
            res@ == path@,
    {
        Path(string_of(&chars_of(path)))
    }

    pub fn from_string(path: String) -> (res: Self)
        ensures
            res@ == path@,
    {
        Path(path)
    }

    pub fn root() -> (res: Self)
        ensures
            res@ == seq!['/'],
    {
        let v: Vec<char> = vec!['/'];
        Path(string_of(&v))
    }

    /// A copy of the path.
    pub fn duplicate(&self) -> (res: Self)
        ensures
            res == *self,
    {
        Path(self.0.clone())
    }

    pub fn as_str(&self) -> (res: &str)
        ensures
            res@ == self@,
    {
        self.0.as_str()
    }

    pub fn to_string(&self) -> (res: String)
        ensures
            res@ == self@,
    {
        self.0.clone()
    }

    /// Resolves "." and ".." and drops empty components.
    pub fn normalize(&self) -> (res: Self)
        ensures
            res@ == normalize_chars(self@),
    {
        let cs = chars_of(self.0.as_str());
        let is_abs = self.is_abs();
        let names = keep_nonempty(split_sep(&cs));
        let parts = resolve(names, is_abs);
        let mut out: Vec<char> = Vec::new();
        if is_abs {
            out.push('/');
        }
        join_parts(&parts, &mut out);
        assert(out@ =~= normalize_chars(self@));
        Path(string_of(&out))
    }

    /// Appends a name with a separator and normalizes the result.
    pub fn join(&self, name: &str) -> (res: Self)
        ensures
            res@ == joined(self@, name@),
    {
        let mut cs = chars_of(self.0.as_str());
        if !(cs.len() > 0 && cs[cs.len() - 1] == '/') {
            cs.push('/');
        }
        let ns = chars_of(name);
        let mut k: usize = 0;
        let ghost base = cs@;
        while k < ns.len()
            invariant
                k <= ns@.len(),
                cs@ == base + ns@.take(k as int),
            decreases ns.len() - k,
        {
            cs.push(ns[k]);
            k = k + 1;
            assert(cs@ =~= base + ns@.take(k as int));
        }
        assert(ns@.take(ns@.len() as int) =~= ns@);
        Path(string_of(&cs)).normalize()
    }

    /// The parent directory.
    pub fn parent(&self) -> (res: Self)
        ensures
            res@ == parent_chars(self@),
    {
        let normalized = self.normalize();
        let ncs = chars_of(normalized.0.as_str());
        if ncs.len() == 1 && ncs[0] == '/' {
            assert(ncs@ =~= seq!['/']);
            return normalized;
        }
        assert(ncs@ != seq!['/']);
        let mut parts = keep_nonempty(split_sep(&ncs));
        if parts.len() > 0 {
            parts.pop();
            assert(parts_view(parts@) =~= path_names(ncs@).drop_last());
        }
        let mut out: Vec<char> = Vec::new();
        if self.is_abs() {
            out.push('/');
            join_parts(&parts, &mut out);
            assert(out@ =~= seq!['/'] + join_slash(parts_view(parts@)));
        } else {
            join_parts(&parts, &mut out);
            assert(out@ =~= join_slash(parts_view(parts@)));
            if out.len() == 0 {
                out.push('.');
                assert(out@ =~= dot());
            }
        }
        Path(string_of(&out))
    }

    /// The non-empty components.
    pub fn names(&self) -> (res: Vec<String>)
        ensures
            res@.map_values(|s: String| s@) == path_names(self@),
    {
        let cs = chars_of(self.0.as_str());
        let parts = keep_nonempty(split_sep(&cs));
        let mut out: Vec<String> = Vec::new();
        let mut i: usize = 0;
        while i < parts.len()
            invariant
                i <= parts@.len(),
                out@.map_values(|s: String| s@) == parts_view(parts@).take(i as int),
            decreases parts.len() - i,
        {
            let ghost prev = out@.map_values(|s: String| s@);
            let st = string_of(&parts[i]);
            assert(st@ == parts_view(parts@)[i as int]);
            out.push(st);
            i = i + 1;
            assert(out@.map_values(|s: String| s@) =~= prev.push(st@));
            assert(out@.map_values(|s: String| s@) =~= parts_view(parts@).take(i as int));
        }
        assert(parts_view(parts@).take(parts@.len() as int) =~= parts_view(parts@));
        out
    }

    /// The last component, or "/" when there is none.
    pub fn name(&self) -> (res: String)
        ensures
            res@ == name_chars(self@),
    {
        let mut names = self.names();
        match names.pop() {
            Some(n) => n,
            None => {
                let v: Vec<char> = vec!['/'];
                string_of(&v)
            },
        }
    }

    pub fn is_abs(&self) -> (res: bool)
        ensures
            res == is_abs_path(self@),
    {
        let s = self.0.as_str();
        s.unicode_len() > 0 && s.get_char(0) == '/'
    }

    /// What remains of one path after the other, when one starts with the
    /// other; otherwise a copy of this path.
    pub fn diff(&self, other: &Self) -> (res: Self)
        ensures
            res@ == diff_chars(self@, other@),
    {
        let a = chars_of(self.0.as_str());
        let b = chars_of(other.0.as_str());
        match strip_sep(&a, &b) {
            Some(r) => return Path(string_of(&r)),
            None => {},
        }
        match strip_sep(&b, &a) {
            Some(r) => return Path(string_of(&r)),
            None => {},
        }
        Path(self.0.clone())
    }
}

fn strip_sep(s: &Vec<char>, p: &Vec<char>) -> (res: Option<Vec<char>>)
    ensures
        match res {
            Some(r) => strip_with_sep(s@, p@) == Some(r@),
            None => strip_with_sep(s@, p@) is None,
        },
{
    if p.len() > s.len() {
        return None;
    }
    let mut i: usize = 0;
    while i < p.len()
        invariant
            p@.len() <= s@.len(),
            i <= p@.len(),
            forall|j: int| 0 <= j < i ==> s@[j] == p@[j],
        decreases p.len() - i,
    {
        if s[i] != p[i] {
            assert(s@.subrange(0, p@.len() as int)[i as int] != p@[i as int]);
            return None;
        }
        i = i + 1;
    }
    assert(s@.subrange(0, p@.len() as int) =~= p@);
    let mut start = p.len();
    if start < s.len() && s[start] == '/' {
        start = start + 1;
    }
    let mut r: Vec<char> = Vec::new();
    let mut k: usize = start;
    while k < s.len()
        invariant
            start <= k <= s@.len(),
            r@ == s@.subrange(start as int, k as int),
        decreases s.len() - k,
    {
        r.push(s[k]);
        k = k + 1;
        assert(r@ =~= s@.subrange(start as int, k as int));
    }
    assert(r@ =~= strip_with_sep(s@, p@).unwrap());
    Some(r)
}

} // verus!
