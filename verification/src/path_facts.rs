//! Facts about the path model: how splitting, joining and components relate.
use vstd::prelude::*;

use crate::path::{
    body_pieces, components, has_cur_dir, has_root, head_components, head_len, is_real_piece, join,
    join_pieces, lemma_pieces_nonempty, piece_component, piece_components, pieces, skip_reals,
    strip_leading, strip_trailing,
};

verus! {

/// `p` holds no `/`.
pub open spec fn slash_free(p: Seq<char>) -> bool {
    forall|i: int| 0 <= i < p.len() ==> p[i] != '/'
}

/// No piece holds a `/`.
pub open spec fn all_slash_free(ps: Seq<Seq<char>>) -> bool {
    forall|i: int| 0 <= i < ps.len() ==> slash_free(#[trigger] ps[i])
}

/// Splitting `a/b` gives the pieces of `a`, then those of `b`.
pub proof fn lemma_pieces_concat(a: Seq<char>, b: Seq<char>)
    ensures
        pieces(a + seq!['/'] + b) == pieces(a) + pieces(b),
    decreases b.len(),
{
    let s = a + seq!['/'] + b;
    if b.len() == 0 {
        assert(s.drop_last() =~= a);
        assert(pieces(a) + pieces(b) =~= pieces(a).push(Seq::<char>::empty()));
    } else {
        let b2 = b.drop_last();
        assert(s.drop_last() =~= a + seq!['/'] + b2);
        lemma_pieces_concat(a, b2);
        lemma_pieces_nonempty(b2);
        lemma_pieces_nonempty(a);
        let p = pieces(a);
        let q = pieces(b2);
        if b.last() == '/' {
            assert(pieces(s) =~= (p + q).push(Seq::<char>::empty()));
            assert(pieces(b) =~= q.push(Seq::<char>::empty()));
            assert(pieces(s) =~= p + pieces(b));
        } else {
            let c = b.last();
            assert(pieces(s) =~= (p + q).update((p + q).len() - 1, (p + q).last().push(c)));
            assert(pieces(b) =~= q.update(q.len() - 1, q.last().push(c)));
            assert(pieces(s) =~= p + pieces(b));
        }
    }
}

/// No piece holds a `/`.
pub proof fn lemma_pieces_slash_free(s: Seq<char>)
    ensures
        all_slash_free(pieces(s)),
    decreases s.len(),
{
    if s.len() > 0 {
        lemma_pieces_slash_free(s.drop_last());
        lemma_pieces_nonempty(s.drop_last());
        let ps = pieces(s.drop_last());
        if s.last() != '/' {
            let np = ps.last().push(s.last());
            assert(slash_free(np)) by {
                assert(slash_free(ps[ps.len() - 1]));
            }
            assert forall|i: int| 0 <= i < pieces(s).len() implies slash_free(
                #[trigger] pieces(s)[i],
            ) by {
                if i < ps.len() - 1 {
                    assert(pieces(s)[i] == ps[i]);
                }
            }
        } else {
            assert forall|i: int| 0 <= i < pieces(s).len() implies slash_free(
                #[trigger] pieces(s)[i],
            ) by {
                if i < ps.len() {
                    assert(pieces(s)[i] == ps[i]);
                }
            }
        }
    }
}

/// A text without `/` is one piece.
pub proof fn lemma_pieces_of_slash_free(w: Seq<char>)
    requires
        slash_free(w),
    ensures
        pieces(w) == seq![w],
    decreases w.len(),
{
    if w.len() > 0 {
        let w2 = w.drop_last();
        assert(slash_free(w2)) by {
            assert forall|i: int| 0 <= i < w2.len() implies w2[i] != '/' by {
                assert(w2[i] == w[i]);
            }
        }
        lemma_pieces_of_slash_free(w2);
        assert(w.last() == w[w.len() - 1]);
        assert(pieces(w) =~= seq![w2.push(w.last())]);
        assert(w2.push(w.last()) =~= w);
    } else {
        assert(w =~= Seq::<char>::empty());
    }
}

/// Splitting pieces put back together gives the pieces again.
pub proof fn lemma_pieces_join(ps: Seq<Seq<char>>)
    requires
        ps.len() >= 1,
        all_slash_free(ps),
    ensures
        pieces(join_pieces(ps)) == ps,
    decreases ps.len(),
{
    if ps.len() == 1 {
        assert(slash_free(ps[0]));
        lemma_pieces_of_slash_free(ps[0]);
        assert(ps =~= seq![ps[0]]);
    } else {
        let init = ps.drop_last();
        assert(all_slash_free(init)) by {
            assert forall|i: int| 0 <= i < init.len() implies slash_free(#[trigger] init[i]) by {
                assert(init[i] == ps[i]);
            }
        }
        lemma_pieces_join(init);
        lemma_pieces_concat(join_pieces(init), ps.last());
        assert(slash_free(ps[ps.len() - 1]));
        lemma_pieces_of_slash_free(ps.last());
        assert(init + seq![ps.last()] =~= ps);
    }
}

/// The components of two runs of pieces are those of the first, then those of the second.
pub proof fn lemma_pc_concat(p: Seq<Seq<char>>, q: Seq<Seq<char>>)
    ensures
        piece_components(p + q) == piece_components(p) + piece_components(q),
    decreases q.len(),
{
    if q.len() == 0 {
        assert(p + q =~= p);
        assert(piece_components(p) + piece_components(q) =~= piece_components(p));
    } else {
        assert((p + q).drop_last() =~= p + q.drop_last());
        assert((p + q).last() == q.last());
        lemma_pc_concat(p, q.drop_last());
        if is_real_piece(q.last()) {
            assert(piece_components(p + q) =~= piece_components(p) + piece_components(q));
        } else {
            assert(piece_components(p + q) =~= piece_components(p) + piece_components(q));
        }
    }
}

/// The components of a single piece.
pub proof fn lemma_pc_single(p: Seq<char>)
    ensures
        piece_components(seq![p]) == if is_real_piece(p) {
            seq![piece_component(p)]
        } else {
            Seq::<crate::path::ComponentView>::empty()
        },
{
    assert(seq![p].drop_last() =~= Seq::<Seq<char>>::empty());
    assert(seq![p].last() == p);
    assert(piece_components(Seq::<Seq<char>>::empty()) =~= Seq::<crate::path::ComponentView>::empty());
    if is_real_piece(p) {
        assert(piece_components(seq![p]) =~= seq![piece_component(p)]);
    } else {
        assert(piece_components(seq![p]) =~= Seq::<crate::path::ComponentView>::empty());
    }
}

/// Dropping trailing empty and `.` pieces keeps the components, and leaves a prefix.
pub proof fn lemma_pc_strip_trailing(ps: Seq<Seq<char>>)
    ensures
        piece_components(strip_trailing(ps)) == piece_components(ps),
        strip_trailing(ps).len() <= ps.len(),
        strip_trailing(ps) == ps.subrange(0, strip_trailing(ps).len() as int),
        strip_trailing(ps).len() > 0 ==> is_real_piece(strip_trailing(ps).last()),
    decreases ps.len(),
{
    if ps.len() > 0 && !is_real_piece(ps.last()) {
        lemma_pc_strip_trailing(ps.drop_last());
        let t = strip_trailing(ps.drop_last());
        assert(ps.drop_last().subrange(0, t.len() as int) =~= ps.subrange(0, t.len() as int));
    } else {
        assert(ps.subrange(0, ps.len() as int) =~= ps);
    }
}

/// Dropping leading empty and `.` pieces keeps the components, and leaves a suffix.
pub proof fn lemma_pc_strip_leading(ps: Seq<Seq<char>>)
    ensures
        piece_components(strip_leading(ps)) == piece_components(ps),
        strip_leading(ps).len() <= ps.len(),
        strip_leading(ps) == ps.subrange(ps.len() - strip_leading(ps).len(), ps.len() as int),
        strip_leading(ps).len() > 0 ==> is_real_piece(strip_leading(ps)[0]),
    decreases ps.len(),
{
    if ps.len() > 0 && !is_real_piece(ps[0]) {
        let rest = ps.drop_first();
        lemma_pc_strip_leading(rest);
        assert(ps =~= seq![ps[0]] + rest);
        lemma_pc_concat(seq![ps[0]], rest);
        lemma_pc_single(ps[0]);
        assert(piece_components(ps) =~= piece_components(rest));
        let t = strip_leading(rest);
        assert(rest.subrange(rest.len() - t.len(), rest.len() as int) =~= ps.subrange(
            ps.len() - t.len(),
            ps.len() as int,
        ));
    } else {
        assert(ps.subrange(0, ps.len() as int) =~= ps);
    }
}

/// Skipping `n` real pieces skips `n` components, and leaves a suffix.
pub proof fn lemma_pc_skip_reals(ps: Seq<Seq<char>>, n: nat)
    requires
        n <= piece_components(ps).len(),
    ensures
        piece_components(skip_reals(ps, n)) == piece_components(ps).skip(n as int),
        skip_reals(ps, n).len() <= ps.len(),
        skip_reals(ps, n) == ps.subrange(ps.len() - skip_reals(ps, n).len(), ps.len() as int),
    decreases ps.len(),
{
    if n == 0 || ps.len() == 0 {
        assert(piece_components(ps).skip(0) =~= piece_components(ps));
        assert(ps.subrange(0, ps.len() as int) =~= ps);
    } else {
        let rest = ps.drop_first();
        assert(ps =~= seq![ps[0]] + rest);
        lemma_pc_concat(seq![ps[0]], rest);
        lemma_pc_single(ps[0]);
        if is_real_piece(ps[0]) {
            lemma_pc_skip_reals(rest, (n - 1) as nat);
            assert(piece_components(ps).skip(n as int) =~= piece_components(rest).skip(n - 1));
        } else {
            lemma_pc_skip_reals(rest, n);
        }
        let t = skip_reals(ps, n);
        assert(rest.subrange(rest.len() - t.len(), rest.len() as int) =~= ps.subrange(
            ps.len() - t.len(),
            ps.len() as int,
        ));
    }
}

/// A run of pieces without `/` keeps that in any part of it.
pub proof fn lemma_subrange_slash_free(ps: Seq<Seq<char>>, a: int, b: int)
    requires
        all_slash_free(ps),
        0 <= a <= b <= ps.len(),
    ensures
        all_slash_free(ps.subrange(a, b)),
{
    assert forall|i: int| 0 <= i < b - a implies slash_free(#[trigger] ps.subrange(a, b)[i]) by {
        assert(ps.subrange(a, b)[i] == ps[a + i]);
    }
}

/// The first piece of `s` is the text before its first `/`.
pub proof fn lemma_first_piece(s: Seq<char>)
    ensures
        pieces(s)[0].len() <= s.len(),
        pieces(s)[0] == s.subrange(0, pieces(s)[0].len() as int),
        slash_free(pieces(s)[0]),
        pieces(s)[0].len() < s.len() ==> s[pieces(s)[0].len() as int] == '/',
        pieces(s).len() == 1 ==> pieces(s)[0] == s,
        pieces(s).len() >= 2 ==> pieces(s)[0].len() < s.len(),
    decreases s.len(),
{
    lemma_pieces_nonempty(s);
    lemma_pieces_slash_free(s);
    assert(slash_free(pieces(s)[0]));
    if s.len() == 0 {
        assert(s.subrange(0, 0) =~= pieces(s)[0]);
    } else {
        let s2 = s.drop_last();
        lemma_first_piece(s2);
        lemma_pieces_nonempty(s2);
        let ps2 = pieces(s2);
        let p0 = ps2[0];
        if s.last() == '/' {
            assert(pieces(s)[0] == p0);
            assert(s.subrange(0, p0.len() as int) =~= s2.subrange(0, p0.len() as int));
            if p0.len() < s2.len() {
                assert(s[p0.len() as int] == s2[p0.len() as int]);
            }
        } else {
            let c = s.last();
            if ps2.len() == 1 {
                assert(pieces(s)[0] == p0.push(c));
                assert(p0.push(c) =~= s);
                assert(s.subrange(0, s.len() as int) =~= s);
            } else {
                assert(pieces(s)[0] == p0);
                assert(s.subrange(0, p0.len() as int) =~= s2.subrange(0, p0.len() as int));
                assert(s[p0.len() as int] == s2[p0.len() as int]);
            }
        }
    }
}

/// The components of a path are those of its head and then those of all its
/// pieces: a head piece (`` before the root `/`, or the leading `.`) adds none.
pub proof fn lemma_pc_pieces_body(s: Seq<char>)
    ensures
        piece_components(pieces(s)) == piece_components(body_pieces(s)),
{
    let h = head_len(s);
    let body = s.subrange(h, s.len() as int);
    if h == 0 {
        assert(body =~= s);
    } else if has_root(s) {
        assert(s =~= Seq::<char>::empty() + seq!['/'] + body);
        lemma_pieces_concat(Seq::<char>::empty(), body);
        assert(pieces(Seq::<char>::empty()) =~= seq![Seq::<char>::empty()]);
        lemma_pc_concat(seq![Seq::<char>::empty()], pieces(body));
        lemma_pc_single(Seq::<char>::empty());
        assert(piece_components(pieces(s)) =~= piece_components(pieces(body)));
    } else {
        // a leading `.` piece
        if s.len() == 1 {
            assert(s =~= seq!['.']);
            lemma_pieces_of_slash_free(s);
            lemma_pc_single(s);
            assert(body =~= Seq::<char>::empty());
            assert(pieces(body) =~= seq![Seq::<char>::empty()]);
            lemma_pc_single(Seq::<char>::empty());
        } else {
            let tail = s.subrange(2, s.len() as int);
            assert(s =~= seq!['.'] + seq!['/'] + tail);
            assert(body =~= Seq::<char>::empty() + seq!['/'] + tail);
            lemma_pieces_concat(seq!['.'], tail);
            lemma_pieces_concat(Seq::<char>::empty(), tail);
            lemma_pieces_of_slash_free(seq!['.']);
            assert(pieces(Seq::<char>::empty()) =~= seq![Seq::<char>::empty()]);
            lemma_pc_concat(seq![seq!['.']], pieces(tail));
            lemma_pc_concat(seq![Seq::<char>::empty()], pieces(tail));
            lemma_pc_single(seq!['.']);
            lemma_pc_single(Seq::<char>::empty());
            assert(piece_components(pieces(s)) =~= piece_components(pieces(tail)));
            assert(piece_components(pieces(body)) =~= piece_components(pieces(tail)));
        }
    }
}

/// A path that is not empty has a component.
pub proof fn lemma_components_nonempty(s: Seq<char>)
    requires
        s.len() > 0,
    ensures
        components(s).len() > 0,
{
    if !has_root(s) && !has_cur_dir(s) {
        assert(s.subrange(0, s.len() as int) =~= s);
        lemma_first_piece(s);
        lemma_pieces_nonempty(s);
        let ps = pieces(s);
        let p0 = ps[0];
        assert(p0.len() > 0) by {
            if p0.len() == 0 {
                assert(s[0] == '/');
            }
        }
        assert(p0 != seq!['.']) by {
            if p0 =~= seq!['.'] {
                assert(s[0] == '.');
                if s.len() > 1 {
                    assert(s[1] == '/');
                }
            }
        }
        assert(ps =~= seq![p0] + ps.drop_first());
        lemma_pc_concat(seq![p0], ps.drop_first());
        lemma_pc_single(p0);
    }
}

/// Joining a relative path adds the components of its pieces.
pub proof fn lemma_components_join(base: Seq<char>, rel: Seq<char>)
    requires
        !has_root(rel),
        base.len() > 0 || !has_cur_dir(rel),
    ensures
        components(join(base, rel)) == components(base) + piece_components(pieces(rel)),
{
    let full = join(base, rel);
    if base.len() == 0 {
        assert(full =~= rel);
        assert(rel.subrange(0, rel.len() as int) =~= rel);
        assert(base.subrange(0, 0) =~= Seq::<char>::empty());
        assert(body_pieces(base) =~= seq![Seq::<char>::empty()]);
        lemma_pc_single(Seq::<char>::empty());
        assert(components(base) =~= Seq::<crate::path::ComponentView>::empty());
        assert(components(full) =~= components(base) + piece_components(pieces(rel)));
    } else if base.last() != '/' {
        assert(full =~= base + seq!['/'] + rel);
        assert(full[0] == base[0]);
        if base.len() >= 2 {
            assert(full[1] == base[1]);
        } else {
            assert(full[1] == '/');
        }
        assert(head_len(full) == head_len(base));
        assert(head_components(full) == head_components(base));
        let h = head_len(base);
        let bb = base.subrange(h, base.len() as int);
        assert(full.subrange(h, full.len() as int) =~= bb + seq!['/'] + rel);
        lemma_pieces_concat(bb, rel);
        lemma_pc_concat(pieces(bb), pieces(rel));
        assert(components(full) =~= components(base) + piece_components(pieces(rel)));
    } else {
        assert(full =~= base + rel);
        if base.len() == 1 {
            assert(base[0] == '/');
            assert(has_root(full));
            assert(full.subrange(1, full.len() as int) =~= rel);
            assert(base.subrange(1, 1) =~= Seq::<char>::empty());
            assert(body_pieces(base) =~= seq![Seq::<char>::empty()]);
            lemma_pc_single(Seq::<char>::empty());
            assert(components(full) =~= components(base) + piece_components(pieces(rel)));
        } else {
            assert(full[0] == base[0]);
            assert(full[1] == base[1]);
            assert(head_len(full) == head_len(base));
            assert(head_components(full) == head_components(base));
            let h = head_len(base);
            let x = base.subrange(h, base.len() - 1);
            assert(base.subrange(h, base.len() as int) =~= x + seq!['/'] + Seq::<char>::empty());
            assert(full.subrange(h, full.len() as int) =~= x + seq!['/'] + rel);
            lemma_pieces_concat(x, rel);
            lemma_pieces_concat(x, Seq::<char>::empty());
            assert(pieces(Seq::<char>::empty()) =~= seq![Seq::<char>::empty()]);
            lemma_pc_concat(pieces(x), pieces(rel));
            lemma_pc_concat(pieces(x), seq![Seq::<char>::empty()]);
            lemma_pc_single(Seq::<char>::empty());
            assert(piece_components(body_pieces(base)) =~= piece_components(pieces(x)));
            assert(components(full) =~= components(base) + piece_components(pieces(rel)));
        }
    }
}

} // verus!
