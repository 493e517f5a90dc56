//! Unix paths as strings: splitting at `/`, components, joining, parents,
//! prefixes, file stems and extensions, with the meaning that `std::path`
//! gives them on Unix.
use vstd::prelude::*;

use crate::text::{append_chars, chars_eq, chars_of, copy_chars, string_of};

verus! {

/// The pieces of `s` between separators: `s` split at every `/`.
/// There is always at least one piece; `"a//b/"` gives `a`, ``, `b`, ``.
pub open spec fn pieces(s: Seq<char>) -> Seq<Seq<char>>
    decreases s.len(),
{
    if s.len() == 0 {
        seq![Seq::<char>::empty()]
    } else {
        let ps = pieces(s.drop_last());
        if s.last() == '/' {
            ps.push(Seq::<char>::empty())
        } else {
            ps.update(ps.len() - 1, ps.last().push(s.last()))
        }
    }
}

/// A text has at least one piece.
pub proof fn lemma_pieces_nonempty(s: Seq<char>)
    ensures
        pieces(s).len() >= 1,
    decreases s.len(),
{
    if s.len() > 0 {
        lemma_pieces_nonempty(s.drop_last());
    }
}

/// The character sequences held by a vector of pieces.
pub open spec fn seqs_of(v: Seq<Vec<char>>) -> Seq<Seq<char>> {
    v.map_values(|p: Vec<char>| p@)
}

/// Splits `s[from..]` at every `/`.
pub fn split_pieces(s: &Vec<char>, from: usize) -> (r: Vec<Vec<char>>)
    requires
        from <= s@.len(),
    ensures
        seqs_of(r@) == pieces(s@.subrange(from as int, s@.len() as int)),
{
    let mut done: Vec<Vec<char>> = Vec::new();
    let mut cur: Vec<char> = Vec::new();
    let mut i = from;
    assert(s@.subrange(from as int, from as int) =~= Seq::<char>::empty());
    assert(seqs_of(done@).push(cur@) =~= seq![Seq::<char>::empty()]);
    while i < s.len()
        invariant
            from <= i <= s@.len(),
            seqs_of(done@).push(cur@) == pieces(s@.subrange(from as int, i as int)),
        decreases s@.len() - i,
    {
        let c = s[i];
        let ghost prev = s@.subrange(from as int, i as int);
        let ghost next = s@.subrange(from as int, i + 1);
        assert(next.drop_last() =~= prev);
        assert(next.last() == c);
        if c == '/' {
            let finished = cur;
            done.push(finished);
            cur = Vec::new();
            assert(seqs_of(done@).push(cur@) =~= pieces(prev).push(Seq::<char>::empty()));
        } else {
            cur.push(c);
            assert(seqs_of(done@).push(cur@) =~= pieces(prev).update(
                pieces(prev).len() - 1,
                pieces(prev).last().push(c),
            ));
        }
        i = i + 1;
    }
    done.push(cur);
    done
}

/// A component of a path, as the specification sees it.
pub enum ComponentView {
    RootDir,
    CurDir,
    ParentDir,
    Normal(Seq<char>),
}

/// A component of a path: the root `/`, a leading `.`, `..`, or a name.
pub enum Component {
    RootDir,
    CurDir,
    ParentDir,
    Normal(Vec<char>),
}

impl View for Component {
    type V = ComponentView;

    open spec fn view(&self) -> ComponentView {
        match self {
            Component::RootDir => ComponentView::RootDir,
            Component::CurDir => ComponentView::CurDir,
            Component::ParentDir => ComponentView::ParentDir,
            Component::Normal(n) => ComponentView::Normal(n@),
        }
    }
}

/// The components held by a vector, as the specification sees them.
pub open spec fn components_of(v: Seq<Component>) -> Seq<ComponentView> {
    v.map_values(|c: Component| c@)
}

/// A piece that makes a component: not empty and not `.`.
pub open spec fn is_real_piece(p: Seq<char>) -> bool {
    p.len() > 0 && p != seq!['.']
}

/// The component a real piece makes: `..` or a name.
pub open spec fn piece_component(p: Seq<char>) -> ComponentView {
    if p == seq!['.', '.'] {
        ComponentView::ParentDir
    } else {
        ComponentView::Normal(p)
    }
}

/// The path starts at the root.
pub open spec fn has_root(s: Seq<char>) -> bool {
    s.len() > 0 && s[0] == '/'
}

/// The path is relative and starts with a `.` piece, which counts as a component.
pub open spec fn has_cur_dir(s: Seq<char>) -> bool {
    &&& !has_root(s)
    &&& s.len() > 0
    &&& s[0] == '.'
    &&& (s.len() == 1 || s[1] == '/')
}

/// The length of the part before the body: the root `/` or the leading `.`.
pub open spec fn head_len(s: Seq<char>) -> int {
    if has_root(s) || has_cur_dir(s) {
        1
    } else {
        0
    }
}

/// The pieces of the part after the head.
pub open spec fn body_pieces(s: Seq<char>) -> Seq<Seq<char>> {
    pieces(s.subrange(head_len(s), s.len() as int))
}

/// The components that a run of pieces makes: one for each real piece.
pub open spec fn piece_components(ps: Seq<Seq<char>>) -> Seq<ComponentView>
    decreases ps.len(),
{
    if ps.len() == 0 {
        Seq::<ComponentView>::empty()
    } else {
        let c = piece_components(ps.drop_last());
        if is_real_piece(ps.last()) {
            c.push(piece_component(ps.last()))
        } else {
            c
        }
    }
}

/// The component of the head: the root, a leading `.`, or none.
pub open spec fn head_components(s: Seq<char>) -> Seq<ComponentView> {
    if has_root(s) {
        seq![ComponentView::RootDir]
    } else if has_cur_dir(s) {
        seq![ComponentView::CurDir]
    } else {
        Seq::<ComponentView>::empty()
    }
}

/// The components of a path, as `Path::components` yields them on Unix.
pub open spec fn components(s: Seq<char>) -> Seq<ComponentView> {
    head_components(s) + piece_components(body_pieces(s))
}

/// Whether a piece makes a component.
fn is_real(p: &Vec<char>) -> (b: bool)
    ensures
        b == is_real_piece(p@),
{
    if p.len() == 0 {
        false
    } else if p.len() == 1 && p[0] == '.' {
        assert(p@ =~= seq!['.']);
        false
    } else {
        assert(p@ != seq!['.']) by {
            if p@.len() == 1 {
                assert(p@[0] != '.');
            }
        }
        true
    }
}

/// Whether the path starts at the root, and whether it starts with a `.` component.
fn root_or_cur(s: &Vec<char>) -> (r: (bool, bool))
    ensures
        r.0 == has_root(s@),
        r.1 == has_cur_dir(s@),
{
    let root = s.len() > 0 && s[0] == '/';
    let cur = !root && s.len() > 0 && s[0] == '.' && (s.len() == 1 || s[1] == '/');
    (root, cur)
}

/// The component a real piece makes.
fn component_of_piece(p: Vec<char>) -> (c: Component)
    ensures
        c@ == piece_component(p@),
{
    if p.len() == 2 && p[0] == '.' && p[1] == '.' {
        assert(p@ =~= seq!['.', '.']);
        Component::ParentDir
    } else {
        assert(p@ != seq!['.', '.']) by {
            if p@.len() == 2 {
                assert(p@[0] != '.' || p@[1] != '.');
            }
        }
        Component::Normal(p)
    }
}

/// The components of the path `s`.
pub fn path_components(s: &Vec<char>) -> (r: Vec<Component>)
    ensures
        components_of(r@) == components(s@),
{
    let (root, cur) = root_or_cur(s);
    let h: usize = if root || cur { 1 } else { 0 };
    let ps = split_pieces(s, h);
    let mut r: Vec<Component> = Vec::new();
    if root {
        r.push(Component::RootDir);
    } else if cur {
        r.push(Component::CurDir);
    }
    let ghost head = components_of(r@);
    assert(head == head_components(s@));
    let ghost bp = body_pieces(s@);
    assert(seqs_of(ps@) == bp);
    let mut i: usize = 0;
    while i < ps.len()
        invariant
            i <= ps@.len(),
            seqs_of(ps@) == bp,
            components_of(r@) == head + piece_components(bp.subrange(0, i as int)),
        decreases ps@.len() - i,
    {
        let p = &ps[i];
        assert(bp.subrange(0, i + 1).drop_last() =~= bp.subrange(0, i as int));
        assert(bp.subrange(0, i + 1).last() == p@);
        if is_real(p) {
            let c = component_of_piece(copy_chars(p));
            let ghost old_r = r@;
            r.push(c);
            assert(components_of(r@) =~= components_of(old_r).push(c@));
            assert(piece_components(bp.subrange(0, i + 1)) == piece_components(
                bp.subrange(0, i as int),
            ).push(piece_component(p@)));
            assert(components_of(r@) =~= head + piece_components(bp.subrange(0, i + 1)));
        } else {
            assert(components_of(r@) =~= head + piece_components(bp.subrange(0, i + 1)));
        }
        i = i + 1;
    }
    assert(bp.subrange(0, bp.len() as int) =~= bp);
    r
}

/// `base` with `rel` adjoined, as `Path::join` does on Unix: an absolute
/// `rel` replaces `base`, and a `/` is put between them where `base` does not
/// already end with one.
pub open spec fn join(base: Seq<char>, rel: Seq<char>) -> Seq<char> {
    if has_root(rel) {
        rel
    } else if base.len() > 0 && base.last() != '/' {
        base + seq!['/'] + rel
    } else {
        base + rel
    }
}

/// `base` with `rel` adjoined, as characters.
pub fn join_chars(base: &Vec<char>, rel: &Vec<char>) -> (r: Vec<char>)
    ensures
        r@ == join(base@, rel@),
{
    if rel.len() > 0 && rel[0] == '/' {
        copy_chars(rel)
    } else {
        let mut r = copy_chars(base);
        if base.len() > 0 && base[base.len() - 1] != '/' {
            r.push('/');
        }
        append_chars(&mut r, rel);
        r
    }
}

/// `Path::new(base).join(rel)`, as a string.
pub fn path_join(base: &str, rel: &str) -> (r: String)
    ensures
        r@ == join(base@, rel@),
{
    let b = chars_of(base);
    let c = chars_of(rel);
    let j = join_chars(&b, &c);
    string_of(&j)
}

/// Whether two components are the same.
fn component_eq(a: &Component, b: &Component) -> (r: bool)
    ensures
        r == (a@ == b@),
{
    match (a, b) {
        (Component::RootDir, Component::RootDir) => true,
        (Component::CurDir, Component::CurDir) => true,
        (Component::ParentDir, Component::ParentDir) => true,
        (Component::Normal(x), Component::Normal(y)) => chars_eq(x, y),
        _ => false,
    }
}

/// Whether the first `n` components of `a` are those of `b`, and `b` has `n`.
fn components_prefix_eq(a: &Vec<Component>, b: &Vec<Component>, n: usize) -> (r: bool)
    requires
        n <= a@.len(),
    ensures
        r == (b@.len() == n && components_of(a@).subrange(0, n as int) == components_of(b@)),
{
    if b.len() != n {
        return false;
    }
    let mut i: usize = 0;
    while i < n
        invariant
            n <= a@.len(),
            b@.len() == n,
            i <= n,
            forall|j: int| 0 <= j < i ==> a@[j]@ == b@[j]@,
        decreases n - i,
    {
        if !component_eq(&a[i], &b[i]) {
            assert(components_of(a@).subrange(0, n as int)[i as int] != components_of(b@)[i as int]);
            return false;
        }
        i = i + 1;
    }
    assert(components_of(a@).subrange(0, n as int) =~= components_of(b@));
    true
}

/// Whether two paths are equal as `Path`s are: component by component.
pub open spec fn same_path(a: Seq<char>, b: Seq<char>) -> bool {
    components(a) == components(b)
}

/// The file name: the last component, where it is a name.
pub open spec fn file_name(s: Seq<char>) -> Option<Seq<char>> {
    let c = components(s);
    if c.len() > 0 && c.last() is Normal {
        Some(c.last()->Normal_0)
    } else {
        None
    }
}

/// The index of the last `.` in `n`, or -1.
pub open spec fn last_dot(n: Seq<char>) -> int
    decreases n.len(),
{
    if n.len() == 0 {
        -1
    } else if n.last() == '.' {
        n.len() - 1
    } else {
        last_dot(n.drop_last())
    }
}

/// `last_dot` is the index of the last `.`, or -1 where there is none.
pub proof fn lemma_last_dot(n: Seq<char>)
    ensures
        -1 <= last_dot(n) < n.len(),
        last_dot(n) >= 0 ==> n[last_dot(n)] == '.',
        forall|i: int| last_dot(n) < i < n.len() ==> n[i] != '.',
    decreases n.len(),
{
    if n.len() > 0 && n.last() != '.' {
        lemma_last_dot(n.drop_last());
        assert(forall|i: int| 0 <= i < n.len() - 1 ==> n.drop_last()[i] == n[i]);
    }
}

/// The stem of a file name: the part before the last `.`, unless that `.` is
/// the first character or there is none, in which case the whole name.
pub open spec fn name_stem(n: Seq<char>) -> Seq<char> {
    if last_dot(n) <= 0 {
        n
    } else {
        n.subrange(0, last_dot(n))
    }
}

/// The extension of a file name: the part after the last `.`, where that `.`
/// is not the first character.
pub open spec fn name_extension(n: Seq<char>) -> Option<Seq<char>> {
    if last_dot(n) <= 0 {
        None
    } else {
        Some(n.subrange(last_dot(n) + 1, n.len() as int))
    }
}

/// `Path::file_stem` on Unix.
pub open spec fn file_stem(s: Seq<char>) -> Option<Seq<char>> {
    match file_name(s) {
        Some(n) => Some(name_stem(n)),
        None => None,
    }
}

/// `Path::extension` on Unix.
pub open spec fn extension(s: Seq<char>) -> Option<Seq<char>> {
    match file_name(s) {
        Some(n) => name_extension(n),
        None => None,
    }
}

/// The index of the last `.` of a name, where there is one.
fn last_dot_of(n: &Vec<char>) -> (r: Option<usize>)
    ensures
        match r {
            Some(d) => d == last_dot(n@),
            None => last_dot(n@) == -1,
        },
{
    let mut i = n.len();
    assert(n@.subrange(0, i as int) =~= n@);
    while i > 0
        invariant
            i <= n@.len(),
            last_dot(n@) == last_dot(n@.subrange(0, i as int)),
        decreases i,
    {
        let ghost pre = n@.subrange(0, i as int);
        assert(pre.drop_last() =~= n@.subrange(0, i - 1));
        if n[i - 1] == '.' {
            return Some(i - 1);
        }
        i = i - 1;
    }
    None
}

/// The file name of the path `s`, as characters.
fn file_name_chars(s: &Vec<char>) -> (r: Option<Vec<char>>)
    ensures
        match r {
            Some(n) => file_name(s@) == Some(n@),
            None => file_name(s@) is None,
        },
{
    let c = path_components(s);
    if c.len() == 0 {
        return None;
    }
    let ghost cs = components_of(c@);
    assert(cs.last() == c@[c@.len() - 1]@);
    match &c[c.len() - 1] {
        Component::Normal(n) => Some(copy_chars(n)),
        _ => None,
    }
}

/// `Path::new(p).file_stem()`, as a string.
pub fn path_file_stem(p: &str) -> (r: Option<String>)
    ensures
        match r {
            Some(x) => file_stem(p@) == Some(x@),
            None => file_stem(p@) is None,
        },
{
    let s = chars_of(p);
    match file_name_chars(&s) {
        None => None,
        Some(n) => {
            proof {
                lemma_last_dot(n@);
            }
            match last_dot_of(&n) {
                Some(d) => {
                    if d == 0 {
                        Some(string_of(&n))
                    } else {
                        Some(crate::text::string_of_range(&n, 0, d))
                    }
                },
                None => Some(string_of(&n)),
            }
        },
    }
}

/// `Path::new(p).extension()`, as a string.
pub fn path_extension(p: &str) -> (r: Option<String>)
    ensures
        match r {
            Some(x) => extension(p@) == Some(x@),
            None => extension(p@) is None,
        },
{
    let s = chars_of(p);
    match file_name_chars(&s) {
        None => None,
        Some(n) => {
            proof {
                lemma_last_dot(n@);
            }
            match last_dot_of(&n) {
                Some(d) => {
                    if d == 0 {
                        None
                    } else {
                        let len = n.len();
                        assert(d < len);
                        Some(crate::text::string_of_range(&n, d + 1, len))
                    }
                },
                None => None,
            }
        },
    }
}

/// The pieces without the trailing ones that are empty or `.`.
pub open spec fn strip_trailing(ps: Seq<Seq<char>>) -> Seq<Seq<char>>
    decreases ps.len(),
{
    if ps.len() > 0 && !is_real_piece(ps.last()) {
        strip_trailing(ps.drop_last())
    } else {
        ps
    }
}

/// The pieces without the leading ones that are empty or `.`.
pub open spec fn strip_leading(ps: Seq<Seq<char>>) -> Seq<Seq<char>>
    decreases ps.len(),
{
    if ps.len() > 0 && !is_real_piece(ps[0]) {
        strip_leading(ps.drop_first())
    } else {
        ps
    }
}

/// The pieces put back together with a `/` between each two.
pub open spec fn join_pieces(ps: Seq<Seq<char>>) -> Seq<char>
    decreases ps.len(),
{
    if ps.len() == 0 {
        Seq::<char>::empty()
    } else if ps.len() == 1 {
        ps[0]
    } else {
        join_pieces(ps.drop_last()) + seq!['/'] + ps.last()
    }
}

/// The pieces after the first `n` real ones.
pub open spec fn skip_reals(ps: Seq<Seq<char>>, n: nat) -> Seq<Seq<char>>
    decreases ps.len(),
{
    if n == 0 || ps.len() == 0 {
        ps
    } else if is_real_piece(ps[0]) {
        skip_reals(ps.drop_first(), (n - 1) as nat)
    } else {
        skip_reals(ps.drop_first(), n)
    }
}

/// The head of a path: `/`, `.` or nothing.
pub open spec fn head(s: Seq<char>) -> Seq<char> {
    s.subrange(0, head_len(s))
}

/// `Path::parent` on Unix, as a string.
pub open spec fn parent(s: Seq<char>) -> Option<Seq<char>> {
    let ps = strip_trailing(body_pieces(s));
    if ps.len() == 0 {
        if has_cur_dir(s) {
            Some(Seq::<char>::empty())
        } else {
            None
        }
    } else {
        Some(head(s) + join_pieces(strip_trailing(ps.drop_last())))
    }
}

/// `Path::strip_prefix` on Unix, as a string: where the components of `base`
/// begin those of `full`, what is left of `full` after them.
pub open spec fn strip_prefix(full: Seq<char>, base: Seq<char>) -> Option<Seq<char>> {
    let f = components(full);
    let b = components(base);
    if b.len() <= f.len() && f.subrange(0, b.len() as int) == b {
        if b.len() == 0 {
            Some(head(full) + join_pieces(strip_trailing(body_pieces(full))))
        } else {
            let rest = skip_reals(
                body_pieces(full),
                (b.len() - head_components(full).len()) as nat,
            );
            Some(join_pieces(strip_leading(strip_trailing(rest))))
        }
    } else {
        None
    }
}

/// The index `e` with `strip_trailing(ps[start..end]) == ps[start..e]`.
fn trailing_end(ps: &Vec<Vec<char>>, start: usize, end: usize) -> (e: usize)
    requires
        start <= end <= ps@.len(),
    ensures
        start <= e <= end,
        strip_trailing(seqs_of(ps@).subrange(start as int, end as int)) == seqs_of(ps@).subrange(
            start as int,
            e as int,
        ),
{
    let ghost v = seqs_of(ps@);
    let mut e = end;
    while e > start && !is_real(&ps[e - 1])
        invariant
            start <= e <= end <= ps@.len(),
            v == seqs_of(ps@),
            strip_trailing(v.subrange(start as int, end as int)) == strip_trailing(
                v.subrange(start as int, e as int),
            ),
        decreases e,
    {
        assert(v.subrange(start as int, e as int).drop_last() =~= v.subrange(start as int, e - 1));
        e = e - 1;
    }
    e
}

/// The index `b` with `strip_leading(ps[start..end]) == ps[b..end]`.
fn leading_start(ps: &Vec<Vec<char>>, start: usize, end: usize) -> (b: usize)
    requires
        start <= end <= ps@.len(),
    ensures
        start <= b <= end,
        strip_leading(seqs_of(ps@).subrange(start as int, end as int)) == seqs_of(ps@).subrange(
            b as int,
            end as int,
        ),
{
    let ghost v = seqs_of(ps@);
    let mut b = start;
    while b < end && !is_real(&ps[b])
        invariant
            start <= b <= end <= ps@.len(),
            v == seqs_of(ps@),
            strip_leading(v.subrange(start as int, end as int)) == strip_leading(
                v.subrange(b as int, end as int),
            ),
        decreases end - b,
    {
        assert(v.subrange(b as int, end as int).drop_first() =~= v.subrange(b + 1, end as int));
        b = b + 1;
    }
    b
}

/// The index of the first piece after the first `n` real pieces of `ps`.
fn skip_reals_index(ps: &Vec<Vec<char>>, n: usize) -> (k: usize)
    ensures
        k <= ps@.len(),
        skip_reals(seqs_of(ps@), n as nat) == seqs_of(ps@).subrange(k as int, ps@.len() as int),
{
    let ghost v = seqs_of(ps@);
    let mut k: usize = 0;
    let mut left = n;
    assert(v.subrange(0, v.len() as int) =~= v);
    while left > 0 && k < ps.len()
        invariant
            k <= ps@.len(),
            v == seqs_of(ps@),
            skip_reals(v, n as nat) == skip_reals(v.subrange(k as int, v.len() as int), left as nat),
        decreases ps@.len() - k,
    {
        assert(v.subrange(k as int, v.len() as int).drop_first() =~= v.subrange(k + 1, v.len() as int));
        if is_real(&ps[k]) {
            left = left - 1;
        }
        k = k + 1;
    }
    k
}

/// The pieces `ps[from..to]` joined with `/`.
fn join_piece_range(ps: &Vec<Vec<char>>, from: usize, to: usize) -> (r: Vec<char>)
    requires
        from <= to <= ps@.len(),
    ensures
        r@ == join_pieces(seqs_of(ps@).subrange(from as int, to as int)),
{
    let ghost v = seqs_of(ps@);
    let mut r: Vec<char> = Vec::new();
    let mut i = from;
    assert(v.subrange(from as int, from as int) =~= Seq::<Seq<char>>::empty());
    while i < to
        invariant
            from <= i <= to <= ps@.len(),
            v == seqs_of(ps@),
            r@ == join_pieces(v.subrange(from as int, i as int)),
        decreases to - i,
    {
        let ghost prev = v.subrange(from as int, i as int);
        let ghost next = v.subrange(from as int, i + 1);
        assert(next.drop_last() =~= prev);
        if i > from {
            r.push('/');
        }
        append_chars(&mut r, &ps[i]);
        proof {
            if i == from {
                assert(next.len() == 1);
                assert(r@ =~= next[0]);
            } else {
                assert(r@ =~= join_pieces(prev) + seq!['/'] + next.last());
            }
        }
        i = i + 1;
    }
    r
}

/// The head of the path `s` and its length.
fn head_chars(s: &Vec<char>) -> (r: (Vec<char>, usize))
    ensures
        r.0@ == head(s@),
        r.1 == head_len(s@),
{
    let (root, cur) = root_or_cur(s);
    if root || cur {
        let mut h: Vec<char> = Vec::new();
        h.push(s[0]);
        assert(h@ =~= s@.subrange(0, 1));
        (h, 1)
    } else {
        let h: Vec<char> = Vec::new();
        assert(h@ =~= s@.subrange(0, 0));
        (h, 0)
    }
}

/// The parent of the path `s`, as characters.
pub fn parent_chars(s: &Vec<char>) -> (r: Option<Vec<char>>)
    ensures
        match r {
            Some(p) => parent(s@) == Some(p@),
            None => parent(s@) is None,
        },
{
    let (h, hl) = head_chars(s);
    let (_, cur) = root_or_cur(s);
    let ps = split_pieces(s, hl);
    let ghost v = seqs_of(ps@);
    assert(v.subrange(0, v.len() as int) =~= v);
    let e = trailing_end(&ps, 0, ps.len());
    if e == 0 {
        if cur {
            Some(Vec::new())
        } else {
            None
        }
    } else {
        assert(v.subrange(0, e as int).drop_last() =~= v.subrange(0, e - 1));
        let e2 = trailing_end(&ps, 0, e - 1);
        let j = join_piece_range(&ps, 0, e2);
        let mut r = h;
        append_chars(&mut r, &j);
        Some(r)
    }
}

/// `Path::new(p).parent()`, as a string.
pub fn path_parent(p: &str) -> (r: Option<String>)
    ensures
        match r {
            Some(x) => parent(p@) == Some(x@),
            None => parent(p@) is None,
        },
{
    let s = chars_of(p);
    match parent_chars(&s) {
        Some(x) => Some(string_of(&x)),
        None => None,
    }
}

/// What is left of `full` after the components of `base`, as characters.
pub fn strip_prefix_chars(full: &Vec<char>, base: &Vec<char>) -> (r: Option<Vec<char>>)
    ensures
        match r {
            Some(p) => strip_prefix(full@, base@) == Some(p@),
            None => strip_prefix(full@, base@) is None,
        },
{
    let f = path_components(full);
    let b = path_components(base);
    if b.len() > f.len() {
        return None;
    }
    if !components_prefix_eq(&f, &b, b.len()) {
        return None;
    }
    let (h, hl) = head_chars(full);
    let ps = split_pieces(full, hl);
    let ghost v = seqs_of(ps@);
    assert(v.subrange(0, v.len() as int) =~= v);
    if b.len() == 0 {
        let e = trailing_end(&ps, 0, ps.len());
        let j = join_piece_range(&ps, 0, e);
        let mut r = h;
        append_chars(&mut r, &j);
        Some(r)
    } else {
        let hc: usize = if hl == 1 { 1 } else { 0 };
        assert(hc == head_components(full@).len());
        let k = skip_reals_index(&ps, b.len() - hc);
        let e = trailing_end(&ps, k, ps.len());
        let st = leading_start(&ps, k, e);
        Some(join_piece_range(&ps, st, e))
    }
}

/// `Path::new(full).strip_prefix(base)`, as a string.
pub fn path_strip_prefix(full: &str, base: &str) -> (r: Option<String>)
    ensures
        match r {
            Some(x) => strip_prefix(full@, base@) == Some(x@),
            None => strip_prefix(full@, base@) is None,
        },
{
    let f = chars_of(full);
    let b = chars_of(base);
    match strip_prefix_chars(&f, &b) {
        Some(x) => Some(string_of(&x)),
        None => None,
    }
}

/// Whether `Path::new(a) == Path::new(b)`: the two have the same components.
pub fn path_eq(a: &str, b: &str) -> (r: bool)
    ensures
        r == same_path(a@, b@),
{
    let x = path_components(&chars_of(a));
    let y = path_components(&chars_of(b));
    let n = x.len();
    let r = components_prefix_eq(&x, &y, n);
    assert(components_of(x@).subrange(0, n as int) =~= components_of(x@));
    r
}

/// The path has a parent (`Path::parent` is `Some`) and that parent is the
/// path `dir`: its last component is not the root, and the components before
/// it are those of `dir`.
pub open spec fn parent_is(p: Seq<char>, dir: Seq<char>) -> bool {
    let c = components(p);
    &&& c.len() > 0
    &&& c.last() != ComponentView::RootDir
    &&& c.drop_last() == components(dir)
}

/// Whether the parent of `p` is the path `dir`.
pub fn parent_is_chars(p: &Vec<char>, dir: &Vec<char>) -> (r: bool)
    ensures
        r == parent_is(p@, dir@),
{
    let c = path_components(p);
    let d = path_components(dir);
    if c.len() == 0 {
        return false;
    }
    let last_is_root = match &c[c.len() - 1] {
        Component::RootDir => true,
        _ => false,
    };
    if last_is_root {
        return false;
    }
    let r = components_prefix_eq(&c, &d, c.len() - 1);
    assert(components_of(c@).subrange(0, c@.len() - 1) =~= components_of(c@).drop_last());
    r
}

} // verus!
