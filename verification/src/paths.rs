//! Unix path text: joining, components, containment, and the lexical part of
//! resolving a relative path under a workspace root.
use vstd::prelude::*;

use crate::text::views;

verus! {

/// `PathBuf::push` on Unix: an absolute `p` replaces `base`; otherwise `p` is
/// appended, with a `/` in between when `base` is not empty and does not end in one.
pub open spec fn path_join_spec(base: Seq<char>, p: Seq<char>) -> Seq<char> {
    if p.len() > 0 && p[0] == '/' {
        p
    } else if base.len() > 0 && base.last() != '/' {
        base + seq!['/'] + p
    } else {
        base + p
    }
}

pub fn path_join(base: &str, p: &str) -> (r: String)
    ensures
        r@ == path_join_spec(base@, p@),
{
    proof {
        reveal_strlit("/");
        assert("/"@ =~= seq!['/']);
    }
    let n = base.unicode_len();
    let m = p.unicode_len();
    if m > 0 && p.get_char(0) == '/' {
        return String::from_str(p);
    }
    let mut out = String::from_str(base);
    if n > 0 && base.get_char(n - 1) != '/' {
        out.append("/");
    }
    out.append(p);
    out
}

/// The `/`-separated pieces of a path text, empty pieces included.
pub open spec fn split_slash(s: Seq<char>) -> Seq<Seq<char>>
    decreases s.len(),
{
    if s.len() == 0 {
        seq![Seq::empty()]
    } else if s.last() == '/' {
        split_slash(s.drop_last()).push(Seq::empty())
    } else {
        let r = split_slash(s.drop_last());
        r.update(r.len() - 1, r.last().push(s.last()))
    }
}

pub proof fn lemma_split_nonempty(s: Seq<char>)
    ensures
        split_slash(s).len() >= 1,
    decreases s.len(),
{
    if s.len() > 0 {
        lemma_split_nonempty(s.drop_last());
    }
}

/// The component that a piece denotes away from the front of a path: nothing for
/// an empty piece or `.`, else the piece itself (`..` included).
pub open spec fn body_parts(segs: Seq<Seq<char>>) -> Seq<Seq<char>>
    decreases segs.len(),
{
    if segs.len() == 0 {
        Seq::empty()
    } else {
        let rest = body_parts(segs.drop_last());
        let seg = segs.last();
        if seg.len() == 0 || seg == seq!['.'] {
            rest
        } else {
            rest.push(seg)
        }
    }
}

/// `Path::components` on Unix, each rendered as its text: `/` for the root, `.`
/// for a leading current-directory marker, `..` for a parent, else the name.
/// Repeated separators, interior `.` pieces and a trailing `/` leave no trace.
pub open spec fn components(s: Seq<char>) -> Seq<Seq<char>> {
    let segs = split_slash(s);
    if s.len() > 0 && s[0] == '/' {
        seq![seq!['/']] + body_parts(segs.drop_first())
    } else if segs[0] == seq!['.'] {
        seq![seq!['.']] + body_parts(segs.drop_first())
    } else {
        body_parts(segs)
    }
}

/// `path` is `root` or lies below it: `root`'s components begin `path`'s.
pub open spec fn within(path: Seq<char>, root: Seq<char>) -> bool {
    let p = components(path);
    let r = components(root);
    r.len() <= p.len() && p.subrange(0, r.len() as int) == r
}

/// The pieces of `s` split at `/`.
fn split_pieces(s: &str) -> (r: Vec<String>)
    ensures
        views(r@) == split_slash(s@),
{
    let n = s.unicode_len();
    let mut parts: Vec<String> = Vec::new();
    let mut start: usize = 0;
    let mut i: usize = 0;
    assert(s@.subrange(0, 0) =~= Seq::<char>::empty());
    assert(views(parts@).push(s@.subrange(0, 0)) =~= seq![Seq::<char>::empty()]);
    while i < n
        invariant
            n == s@.len(),
            start <= i <= n,
            split_slash(s@.subrange(0, i as int)) == views(parts@).push(s@.subrange(start as int, i as int)),
        decreases n - i,
    {
        let c = s.get_char(i);
        let ghost prev = s@.subrange(0, i as int);
        assert(s@.subrange(0, i + 1).drop_last() =~= prev);
        assert(s@.subrange(0, i + 1).last() == c);
        if c == '/' {
            let piece = String::from_str(s.substring_char(start, i));
            parts.push(piece);
            assert(s@.subrange((i + 1) as int, (i + 1) as int) =~= Seq::<char>::empty());
            assert(views(parts@) =~= split_slash(prev));
            start = i + 1;
        } else {
            assert(s@.subrange(start as int, i + 1) =~= s@.subrange(start as int, i as int).push(c));
            assert(split_slash(s@.subrange(0, i + 1)) =~= views(parts@).push(s@.subrange(start as int, i + 1)));
        }
        i += 1;
    }
    assert(s@.subrange(0, n as int) =~= s@);
    parts.push(String::from_str(s.substring_char(start, n)));
    assert(views(parts@) =~= split_slash(s@));
    parts
}

fn is_dot(s: &str) -> (r: bool)
    ensures
        r == (s@ == seq!['.']),
{
    if s.unicode_len() != 1 {
        return false;
    }
    if s.get_char(0) == '.' {
        assert(s@ =~= seq!['.']);
        true
    } else {
        false
    }
}

/// The components of `s`, as [`components`] renders them.
pub fn path_components(s: &str) -> (r: Vec<String>)
    ensures
        views(r@) == components(s@),
{
    let segs = split_pieces(s);
    proof {
        lemma_split_nonempty(s@);
        reveal_strlit("/");
        reveal_strlit(".");
        assert("/"@ =~= seq!['/']);
        assert("."@ =~= seq!['.']);
    }
    let n = s.unicode_len();
    let mut out: Vec<String> = Vec::new();
    let mut k: usize = 0;
    if n > 0 && s.get_char(0) == '/' {
        out.push(String::from_str("/"));
        k = 1;
    } else if is_dot(segs[0].as_str()) {
        out.push(String::from_str("."));
        k = 1;
    }
    let ghost head = views(out@);
    let ghost segv = views(segs@);
    assert(segv.subrange(k as int, k as int) =~= Seq::<Seq<char>>::empty());
    let m = segs.len();
    while k < m
        invariant
            m == segs@.len(),
            segv == views(segs@),
            1 <= m,
            head.len() <= k <= m,
            views(out@) == head + body_parts(segv.subrange(head.len() as int, k as int)),
        decreases m - k,
    {
        let piece = segs[k].as_str();
        assert(segv.subrange(head.len() as int, k + 1).drop_last() =~= segv.subrange(head.len() as int, k as int));
        assert(segv.subrange(head.len() as int, k + 1).last() == piece@);
        let ghost before = views(out@);
        if piece.unicode_len() != 0 && !is_dot(piece) {
            out.push(String::from_str(piece));
            assert(views(out@) =~= before.push(piece@));
            assert(body_parts(segv.subrange(head.len() as int, k + 1)) == body_parts(
                segv.subrange(head.len() as int, k as int),
            ).push(piece@));
            assert(views(out@) =~= head + body_parts(segv.subrange(head.len() as int, k + 1)));
        } else {
            assert(body_parts(segv.subrange(head.len() as int, k + 1)) == body_parts(
                segv.subrange(head.len() as int, k as int),
            ));
        }
        k += 1;
    }
    assert(segv.subrange(head.len() as int, m as int) =~= if head.len() == 1 {
        segv.drop_first()
    } else {
        segv
    });
    out
}

/// Whether `path` is `root` or below it (`Path::starts_with`).
pub fn path_is_within(path: &str, root: &str) -> (r: bool)
    ensures
        r == within(path@, root@),
{
    let p = path_components(path);
    let q = path_components(root);
    if q.len() > p.len() {
        return false;
    }
    let n = q.len();
    let mut i: usize = 0;
    while i < n
        invariant
            n == q@.len(),
            n <= p@.len(),
            views(p@) == components(path@),
            views(q@) == components(root@),
            i <= n,
            forall|j: int| 0 <= j < i ==> p@[j]@ == q@[j]@,
        decreases n - i,
    {
        if !crate::text::str_eq(p[i].as_str(), q[i].as_str()) {
            assert(views(p@)[i as int] == p@[i as int]@);
            assert(views(q@)[i as int] == q@[i as int]@);
            assert(views(p@).subrange(0, n as int)[i as int] != views(q@)[i as int]);
            assert(components(path@).subrange(0, n as int) != components(root@));
            return false;
        }
        i += 1;
    }
    assert(views(p@).subrange(0, n as int) =~= views(q@));
    true
}

} // verus!

verus! {

pub open spec fn relative_error() -> Seq<char> {
    "path must be relative to the workspace root"@
}

pub open spec fn parent_error() -> Seq<char> {
    "path must not contain '..'"@
}

/// Walk the components of a relative path onto `acc`: `.` is skipped, `..` and
/// a root are refused, names are pushed.
pub open spec fn join_components(acc: Seq<char>, comps: Seq<Seq<char>>) -> Result<Seq<char>, Seq<char>>
    decreases comps.len(),
{
    if comps.len() == 0 {
        Ok(acc)
    } else {
        let c = comps[0];
        if c == seq!['.'] {
            join_components(acc, comps.drop_first())
        } else if c == seq!['.', '.'] {
            Err(parent_error())
        } else if c == seq!['/'] {
            Err(relative_error())
        } else {
            join_components(path_join_spec(acc, c), comps.drop_first())
        }
    }
}

/// Refuse an absolute path.
pub fn check_relative(rel: &str) -> (r: Result<(), String>)
    ensures
        r is Err <==> (rel@.len() > 0 && rel@[0] == '/'),
        r matches Err(m) ==> m@ == relative_error(),
{
    if rel.unicode_len() > 0 && rel.get_char(0) == '/' {
        Err(String::from_str("path must be relative to the workspace root"))
    } else {
        Ok(())
    }
}

/// The path that `rel` names under `root`, before any link is followed.
pub fn join_under_root(root: &str, rel: &str) -> (r: Result<String, String>)
    ensures
        join_components(root@, components(rel@)) is Ok <==> r is Ok,
        r matches Ok(p) ==> join_components(root@, components(rel@)) == Ok::<Seq<char>, Seq<char>>(p@),
        r matches Err(m) ==> join_components(root@, components(rel@)) == Err::<Seq<char>, Seq<char>>(m@),
{
    let comps = path_components(rel);
    let ghost cv = views(comps@);
    let mut acc = String::from_str(root);
    let n = comps.len();
    let mut i: usize = 0;
    proof {
        reveal_strlit(".");
        reveal_strlit("..");
        reveal_strlit("/");
        assert("."@ =~= seq!['.']);
        assert(".."@ =~= seq!['.', '.']);
        assert("/"@ =~= seq!['/']);
        assert(cv.subrange(0, n as int) =~= cv);
    }
    while i < n
        invariant
            n == comps@.len(),
            cv == views(comps@),
            cv == components(rel@),
            i <= n,
            join_components(root@, cv) == join_components(acc@, cv.subrange(i as int, n as int)),
            "."@ == seq!['.'],
            ".."@ == seq!['.', '.'],
            "/"@ == seq!['/'],
        decreases n - i,
    {
        let c = comps[i].as_str();
        let ghost rest = cv.subrange(i as int, n as int);
        assert(rest[0] == c@);
        assert(rest.drop_first() =~= cv.subrange(i + 1, n as int));
        if crate::text::str_eq(c, ".") {
        } else if crate::text::str_eq(c, "..") {
            return Err(String::from_str("path must not contain '..'"));
        } else if crate::text::str_eq(c, "/") {
            return Err(String::from_str("path must be relative to the workspace root"));
        } else {
            acc = path_join(acc.as_str(), c);
        }
        i += 1;
    }
    assert(cv.subrange(n as int, n as int).len() == 0);
    Ok(acc)
}

pub open spec fn escape_error() -> Seq<char> {
    "path escapes the workspace root"@
}

/// Accept `path` only when it is `root` or below it.
pub fn check_within(path: String, root: &str) -> (r: Result<String, String>)
    ensures
        within(path@, root@) ==> r == Ok::<String, String>(path),
        !within(path@, root@) ==> (r matches Err(m) && m@ == escape_error()),
{
    if path_is_within(path.as_str(), root) {
        Ok(path)
    } else {
        Err(String::from_str("path escapes the workspace root"))
    }
}

} // verus!

verus! {

pub open spec fn no_slash(s: Seq<char>) -> bool {
    forall|i: int| 0 <= i < s.len() ==> s[i] != '/'
}

/// A plain file or directory name.
pub open spec fn normal_name(c: Seq<char>) -> bool {
    c.len() > 0 && no_slash(c) && c != seq!['.'] && c != seq!['.', '.']
}

proof fn lemma_split_no_slash(b: Seq<char>)
    requires
        no_slash(b),
    ensures
        split_slash(b) == seq![b],
    decreases b.len(),
{
    if b.len() > 0 {
        lemma_split_no_slash(b.drop_last());
        assert(b.drop_last().push(b.last()) =~= b);
        assert(split_slash(b) =~= seq![b]);
    } else {
        assert(b =~= Seq::<char>::empty());
    }
}

proof fn lemma_split_concat(a: Seq<char>, b: Seq<char>)
    requires
        no_slash(b),
    ensures
        split_slash(a + seq!['/'] + b) == split_slash(a).push(b),
    decreases b.len(),
{
    let s = a + seq!['/'] + b;
    if b.len() == 0 {
        assert(s.drop_last() =~= a);
        assert(b =~= Seq::<char>::empty());
    } else {
        lemma_split_concat(a, b.drop_last());
        assert(s.drop_last() =~= a + seq!['/'] + b.drop_last());
        assert(s.last() == b.last());
        assert(b.drop_last().push(b.last()) =~= b);
        assert(split_slash(s) =~= split_slash(a).push(b));
    }
}

proof fn lemma_pieces_no_slash(s: Seq<char>)
    ensures
        forall|k: int| 0 <= k < split_slash(s).len() ==> no_slash(#[trigger] split_slash(s)[k]),
    decreases s.len(),
{
    if s.len() > 0 {
        lemma_pieces_no_slash(s.drop_last());
        lemma_split_nonempty(s.drop_last());
        let r = split_slash(s.drop_last());
        if s.last() != '/' {
            assert(no_slash(r.last()));
            assert(no_slash(r.last().push(s.last())));
            assert forall|k: int| 0 <= k < split_slash(s).len() implies no_slash(#[trigger] split_slash(s)[k]) by {
                if k < r.len() - 1 {
                    assert(split_slash(s)[k] == r[k]);
                }
            }
        } else {
            assert forall|k: int| 0 <= k < split_slash(s).len() implies no_slash(#[trigger] split_slash(s)[k]) by {
                if k < r.len() {
                    assert(split_slash(s)[k] == r[k]);
                }
            }
        }
    }
}

proof fn lemma_body_parts_names(segs: Seq<Seq<char>>)
    requires
        forall|k: int| 0 <= k < segs.len() ==> no_slash(#[trigger] segs[k]),
    ensures
        forall|k: int|
            0 <= k < body_parts(segs).len() ==> (#[trigger] body_parts(segs)[k] == seq!['.', '.'] || normal_name(
                body_parts(segs)[k],
            )),
    decreases segs.len(),
{
    if segs.len() > 0 {
        let p = segs.drop_last();
        lemma_body_parts_names(p);
        let last = segs[segs.len() - 1];
        assert(no_slash(last));
        let rest = body_parts(p);
        assert forall|k: int| 0 <= k < body_parts(segs).len() implies (#[trigger] body_parts(segs)[k] == seq![
            '.',
            '.',
        ] || normal_name(body_parts(segs)[k])) by {
            if k < rest.len() {
                assert(body_parts(segs)[k] == rest[k]);
            } else {
                assert(body_parts(segs)[k] == last);
            }
        }
    }
}

/// Every component is the root, a leading `.`, `..`, or a plain name.
pub proof fn lemma_components_shape(s: Seq<char>)
    ensures
        forall|k: int|
            0 <= k < components(s).len() ==> {
                let c = #[trigger] components(s)[k];
                c == seq!['/'] || c == seq!['.'] || c == seq!['.', '.'] || normal_name(c)
            },
{
    let segs = split_slash(s);
    lemma_split_nonempty(s);
    lemma_pieces_no_slash(s);
    assert forall|k: int| 0 <= k < segs.drop_first().len() implies no_slash(#[trigger] segs.drop_first()[k]) by {
        assert(segs.drop_first()[k] == segs[k + 1]);
    }
    lemma_body_parts_names(segs);
    lemma_body_parts_names(segs.drop_first());
}

proof fn lemma_body_parts_push(x: Seq<Seq<char>>, c: Seq<char>)
    ensures
        normal_name(c) ==> body_parts(x.push(c)) == body_parts(x).push(c),
        body_parts(x.push(Seq::empty())) == body_parts(x),
{
    assert(x.push(c).drop_last() =~= x);
    assert(x.push(Seq::<char>::empty()).drop_last() =~= x);
}

/// Pushing a plain name adds exactly that name to the components.
pub proof fn lemma_join_name(acc: Seq<char>, c: Seq<char>)
    requires
        normal_name(c),
    ensures
        components(path_join_spec(acc, c)) == components(acc).push(c),
{
    let j = path_join_spec(acc, c);
    lemma_split_no_slash(c);
    if acc.len() == 0 {
        assert(j =~= c);
        assert(split_slash(acc) =~= seq![Seq::<char>::empty()]);
        assert(c[0] != '/');
        assert(body_parts(seq![Seq::<char>::empty()]) =~= Seq::<Seq<char>>::empty()) by {
            reveal_with_fuel(body_parts, 2);
            assert(seq![Seq::<char>::empty()].drop_last() =~= Seq::<Seq<char>>::empty());
        }
        assert(body_parts(seq![c]) =~= seq![c]) by {
            reveal_with_fuel(body_parts, 2);
            assert(seq![c].drop_last() =~= Seq::<Seq<char>>::empty());
        }
        assert(components(acc) =~= Seq::<Seq<char>>::empty());
    } else {
        let a = if acc.last() != '/' {
            acc
        } else {
            acc.drop_last()
        };
        assert(j =~= a + seq!['/'] + c) by {
            if acc.last() == '/' {
                assert(acc =~= acc.drop_last() + seq!['/']);
            }
        }
        lemma_split_concat(a, c);
        lemma_split_nonempty(a);
        let sa = split_slash(a);
        let sj = split_slash(j);
        assert(sj == sa.push(c));
        let sacc = split_slash(acc);
        if acc.last() == '/' {
            assert(sacc == sa.push(Seq::empty()));
        } else {
            assert(sacc == sa);
        }
        assert(j[0] == acc[0]) by {
            if acc.last() == '/' {
                assert(acc =~= acc.drop_last() + seq!['/']);
            }
        }
        assert(sj[0] == sacc[0]);
        lemma_body_parts_push(sa, c);
        lemma_body_parts_push(sa.drop_first(), c);
        assert(sj.drop_first() =~= sa.drop_first().push(c));
        if acc.last() == '/' {
            lemma_body_parts_push(sa, Seq::empty());
            lemma_body_parts_push(sa.drop_first(), Seq::empty());
            assert(sacc.drop_first() =~= sa.drop_first().push(Seq::empty()));
        }
        assert(components(j) =~= components(acc).push(c));
    }
}

pub open spec fn is_prefix_of(a: Seq<Seq<char>>, b: Seq<Seq<char>>) -> bool {
    a.len() <= b.len() && b.subrange(0, a.len() as int) == a
}

proof fn lemma_join_prefix(acc: Seq<char>, cs: Seq<Seq<char>>)
    requires
        forall|k: int|
            0 <= k < cs.len() ==> {
                let c = #[trigger] cs[k];
                c == seq!['/'] || c == seq!['.'] || c == seq!['.', '.'] || normal_name(c)
            },
    ensures
        join_components(acc, cs) matches Ok(p) ==> is_prefix_of(components(acc), components(p)),
    decreases cs.len(),
{
    if cs.len() > 0 {
        let c = cs[0];
        assert forall|k: int| 0 <= k < cs.drop_first().len() implies {
            let d = #[trigger] cs.drop_first()[k];
            d == seq!['/'] || d == seq!['.'] || d == seq!['.', '.'] || normal_name(d)
        } by {
            assert(cs.drop_first()[k] == cs[k + 1]);
        }
        if c == seq!['.'] {
            lemma_join_prefix(acc, cs.drop_first());
        } else if c == seq!['.', '.'] || c == seq!['/'] {
        } else {
            assert(normal_name(c));
            let next = path_join_spec(acc, c);
            lemma_join_name(acc, c);
            lemma_join_prefix(next, cs.drop_first());
            if let Ok(p) = join_components(acc, cs) {
                let ca = components(acc);
                let cn = components(next);
                let cp = components(p);
                assert(cn == ca.push(c));
                assert(cp.subrange(0, ca.len() as int) =~= cp.subrange(0, cn.len() as int).subrange(
                    0,
                    ca.len() as int,
                ));
                assert(cn.subrange(0, ca.len() as int) =~= ca);
            }
        }
    } else {
        assert(components(acc).subrange(0, components(acc).len() as int) =~= components(acc));
    }
}

/// A relative path joined under a root, when accepted, is the root or lies
/// below it: `..` never leads out of the workspace.
pub proof fn lemma_joined_path_within(root: Seq<char>, rel: Seq<char>)
    ensures
        join_components(root, components(rel)) matches Ok(p) ==> within(p, root),
{
    lemma_components_shape(rel);
    lemma_join_prefix(root, components(rel));
}

proof fn lemma_relative_has_no_root(s: Seq<char>)
    requires
        !(s.len() > 0 && s[0] == '/'),
    ensures
        forall|k: int| 0 <= k < components(s).len() ==> #[trigger] components(s)[k] != seq!['/'],
{
    let segs = split_slash(s);
    lemma_split_nonempty(s);
    lemma_pieces_no_slash(s);
    assert forall|k: int| 0 <= k < segs.drop_first().len() implies no_slash(#[trigger] segs.drop_first()[k]) by {
        assert(segs.drop_first()[k] == segs[k + 1]);
    }
    lemma_body_parts_names(segs);
    lemma_body_parts_names(segs.drop_first());
    let c = components(s);
    assert forall|k: int| 0 <= k < c.len() implies #[trigger] c[k] != seq!['/'] by {
        let slash = seq!['/'];
        assert(!no_slash(slash)) by {
            assert(slash[0] == '/');
        }
        if segs[0] == seq!['.'] {
            if k > 0 {
                assert(c[k] == body_parts(segs.drop_first())[k - 1]);
            }
        } else {
            assert(c[k] == body_parts(segs)[k]);
        }
        if c[k] == slash {
            assert(slash != seq!['.', '.']);
            assert(slash != seq!['.']);
        }
    }
}

proof fn lemma_join_refuses_parent(acc: Seq<char>, cs: Seq<Seq<char>>, i: int)
    requires
        0 <= i < cs.len(),
        cs[i] == seq!['.', '.'],
        forall|k: int| 0 <= k < cs.len() ==> #[trigger] cs[k] != seq!['/'],
    ensures
        join_components(acc, cs) == Err::<Seq<char>, Seq<char>>(parent_error()),
    decreases cs.len(),
{
    let c = cs[0];
    if c != seq!['.', '.'] {
        assert(i > 0);
        let rest = cs.drop_first();
        assert(rest[i - 1] == cs[i]);
        assert forall|k: int| 0 <= k < rest.len() implies #[trigger] rest[k] != seq!['/'] by {
            assert(rest[k] == cs[k + 1]);
        }
        assert(c != seq!['/']);
        if c == seq!['.'] {
            lemma_join_refuses_parent(acc, rest, i - 1);
        } else {
            lemma_join_refuses_parent(path_join_spec(acc, c), rest, i - 1);
        }
    }
}

/// A relative path with a `..` component is refused with the parent error,
/// whatever the root and wherever the `..` stands.
pub proof fn lemma_parent_component_refused(root: Seq<char>, rel: Seq<char>, i: int)
    requires
        !(rel.len() > 0 && rel[0] == '/'),
        0 <= i < components(rel).len(),
        components(rel)[i] == seq!['.', '.'],
    ensures
        join_components(root, components(rel)) == Err::<Seq<char>, Seq<char>>(parent_error()),
{
    lemma_relative_has_no_root(rel);
    lemma_join_refuses_parent(root, components(rel), i);
}

} // verus!
