//! Properties that hold across the operations of the library.
use vstd::prelude::*;

use crate::app::{
    action_spec, down_index, index_from, index_or_first, initial_selection, pull_message, up_index,
    Action, ExitAction, GitRun, Key,
};
use crate::config::{
    applied_entries, is_theme_entry, removed_entries, theme_index, theme_index_from, theme_stem,
};
use crate::path::{
    body_pieces, components, file_stem, has_cur_dir, has_root, head, head_components,
    head_len, is_real_piece, join, join_pieces, last_dot, name_stem, piece_component,
    piece_components, pieces, same_path, skip_reals, strip_leading, strip_prefix, strip_trailing,
    ComponentView,
};
use crate::path_facts::{
    lemma_components_join, lemma_components_nonempty, lemma_first_piece,
    lemma_pc_concat, lemma_pc_pieces_body, lemma_pc_single, lemma_pc_skip_reals,
    lemma_pc_strip_leading, lemma_pc_strip_trailing, lemma_pieces_concat, lemma_pieces_join,
    lemma_pieces_of_slash_free, lemma_pieces_slash_free, lemma_subrange_slash_free, slash_free,
};
use crate::order::chars_le;
use crate::text::starts_with_spec;
use crate::ui::status_color_spec;
use crate::themes::{expand_home, theme_file_name, theme_import_spec, theme_path_spec};
use crate::toml_doc::{GeneralShape, ImportLayout};

verus! {

/// The keys: `↑` and `k` move up, `↓` and `j` move down, `Enter` keeps the
/// theme and ends, `Esc` and `q` put the original theme back and end, and `u`
/// pulls the themes repository where it is a git checkout and does nothing
/// elsewhere. Only `u` depends on whether there is a repository.
pub proof fn law_keys(is_git_repo: bool, key: Key)
    ensures
        action_spec(Key::Up, is_git_repo) == Action::MoveUp,
        action_spec(Key::Char('k'), is_git_repo) == Action::MoveUp,
        action_spec(Key::Down, is_git_repo) == Action::MoveDown,
        action_spec(Key::Char('j'), is_git_repo) == Action::MoveDown,
        action_spec(Key::Enter, is_git_repo) == Action::Exit(ExitAction::KeepCurrent),
        action_spec(Key::Esc, is_git_repo) == Action::Exit(ExitAction::RestoreOriginal),
        action_spec(Key::Char('q'), is_git_repo) == Action::Exit(ExitAction::RestoreOriginal),
        action_spec(Key::Char('u'), true) == Action::GitPull,
        action_spec(Key::Char('u'), false) == Action::Nothing,
        action_spec(Key::Other, is_git_repo) == Action::Nothing,
        key != Key::Char('u') ==> action_spec(key, true) == action_spec(key, false),
{
}

/// The status line of a pull shows red (palette index 1) for every pull
/// that failed: no directory to run `git` in, `git` not started, or `git`
/// ending in failure, whatever it wrote; and green (2) for every pull that
/// succeeded.
pub proof fn law_pull_status_colour(run: GitRun)
    ensures
        status_color_spec(pull_message(run)) == match run {
            GitRun::Finished { success, stdout, stderr } => if success {
                2u8
            } else {
                1u8
            },
            _ => 1u8,
        },
{
    reveal_strlit("git error");
    reveal_strlit("git error: ");
    reveal_strlit("failed");
    reveal_strlit("failed to run git: ");
    reveal_strlit("error");
    reveal_strlit("error: cannot determine repo directory");
    reveal_strlit("Already up to date");
    reveal_strlit("Updated — theme list refreshed");
    let m = pull_message(run);
    match run {
        GitRun::NoRepoDir => {
            assert(m.subrange(0, 5) =~= "error"@);
        },
        GitRun::SpawnFailed(e) => {
            assert(m.subrange(0, 6) =~= "failed"@);
        },
        GitRun::Finished { success, stdout, stderr } => {
            if !success {
                assert(m.subrange(0, 9) =~= "git error"@);
            } else {
                assert(m[0] == 'A' || m[0] == 'U');
                assert(!starts_with_spec(m, "git error"@)) by {
                    assert(m.subrange(0, 9)[0] == m[0]);
                }
                assert(!starts_with_spec(m, "failed"@)) by {
                    assert(m.subrange(0, 6)[0] == m[0]);
                }
                assert(!starts_with_spec(m, "error"@)) by {
                    assert(m.subrange(0, 5)[0] == m[0]);
                }
            }
        },
    }
}

/// Names are ordered by code point at the first place where they differ, as
/// `str`'s `Ord` orders them.
pub proof fn law_order_by_code_points(a: Seq<char>, b: Seq<char>, k: int)
    requires
        0 <= k < a.len(),
        k < b.len(),
        a.subrange(0, k) == b.subrange(0, k),
        a[k] != b[k],
    ensures
        chars_le(a, b) <==> (a[k] as int) < (b[k] as int),
    decreases k,
{
    if k > 0 {
        assert(a[0] == a.subrange(0, k)[0]);
        assert(b[0] == b.subrange(0, k)[0]);
        assert(a.drop_first().subrange(0, k - 1) =~= a.subrange(0, k).drop_first());
        assert(b.drop_first().subrange(0, k - 1) =~= b.subrange(0, k).drop_first());
        law_order_by_code_points(a.drop_first(), b.drop_first(), k - 1);
    }
}

/// A name comes before every longer name that it begins, and never after
/// one.
pub proof fn law_prefix_first(a: Seq<char>, b: Seq<char>)
    requires
        a.len() < b.len(),
        b.subrange(0, a.len() as int) == a,
    ensures
        chars_le(a, b),
        !chars_le(b, a),
    decreases a.len(),
{
    if a.len() > 0 {
        assert(a[0] == b.subrange(0, a.len() as int)[0]);
        assert(b.drop_first().subrange(0, a.len() - 1) =~= a.drop_first());
        law_prefix_first(a.drop_first(), b.drop_first());
    }
}

/// Moving down and then up comes back to the same theme, and so does moving
/// up and then down; either move stays inside the list.
pub proof fn law_moves_undo_each_other(i: int, len: int)
    requires
        0 <= i < len,
    ensures
        0 <= down_index(i, len) < len,
        0 <= up_index(i, len) < len,
        up_index(down_index(i, len), len) == i,
        down_index(up_index(i, len), len) == i,
{
    vstd::arithmetic::div_mod::lemma_mod_bound(i + 1, len);
    if i + 1 < len {
        vstd::arithmetic::div_mod::lemma_small_mod((i + 1) as nat, len as nat);
    } else {
        vstd::arithmetic::div_mod::lemma_mod_self_0(len);
    }
    if i == 0 {
        vstd::arithmetic::div_mod::lemma_mod_self_0(len);
    } else {
        vstd::arithmetic::div_mod::lemma_small_mod(i as nat, len as nat);
    }
}

/// The selection after `n` moves down from `i`.
pub open spec fn down_times(i: int, len: int, n: nat) -> int
    decreases n,
{
    if n == 0 {
        i
    } else {
        down_index(down_times(i, len, (n - 1) as nat), len)
    }
}

/// `n` moves down from `i` lead to `(i + n) % len`.
proof fn lemma_down_times(i: int, len: int, n: nat)
    requires
        0 <= i < len,
    ensures
        down_times(i, len, n) == (i + n) % len,
    decreases n,
{
    if n == 0 {
        vstd::arithmetic::div_mod::lemma_small_mod(i as nat, len as nat);
    } else {
        lemma_down_times(i, len, (n - 1) as nat);
        vstd::arithmetic::div_mod::lemma_add_mod_noop(i + n - 1, 1, len);
        vstd::arithmetic::div_mod::lemma_mod_bound(i + n - 1, len);
        if len > 1 {
            vstd::arithmetic::div_mod::lemma_small_mod(1, len as nat);
            vstd::arithmetic::div_mod::lemma_add_mod_noop(i + n - 1, 1, len);
            assert(((i + n - 1) % len + 1) % len == (i + n) % len);
        } else {
            vstd::arithmetic::div_mod::lemma_mod_bound(i + n, 1);
            vstd::arithmetic::div_mod::lemma_mod_bound((i + n - 1) % len + 1, 1);
        }
    }
}

/// Moving down once for every theme in the list comes back to the theme one
/// started on.
pub proof fn law_down_cycles(i: int, len: int)
    requires
        0 <= i < len,
    ensures
        down_times(i, len, len as nat) == i,
{
    lemma_down_times(i, len, len as nat);
    vstd::arithmetic::div_mod::lemma_mod_add_multiples_vanish(i, len);
    vstd::arithmetic::div_mod::lemma_small_mod(i as nat, len as nat);
}

/// The selection after `n` moves up from `i`.
pub open spec fn up_times(i: int, len: int, n: nat) -> int
    decreases n,
{
    if n == 0 {
        i
    } else {
        up_index(up_times(i, len, (n - 1) as nat), len)
    }
}

/// `n` moves up from `i` lead to `(i - n) % len`.
proof fn lemma_up_times(i: int, len: int, n: nat)
    requires
        0 <= i < len,
    ensures
        up_times(i, len, n) == (i - n) % len,
    decreases n,
{
    if n == 0 {
        vstd::arithmetic::div_mod::lemma_small_mod(i as nat, len as nat);
    } else {
        lemma_up_times(i, len, (n - 1) as nat);
        let x = i - n + 1;
        let q = x / len;
        let m = x % len;
        vstd::arithmetic::div_mod::lemma_fundamental_div_mod(x, len);
        vstd::arithmetic::div_mod::lemma_mod_bound(x, len);
        assert(x == q * len + m) by (nonlinear_arith)
            requires
                x == len * q + m,
        ;
        if m == 0 {
            assert(x - 1 == (q - 1) * len + (len - 1)) by (nonlinear_arith)
                requires
                    x == q * len + m,
                    m == 0,
            ;
            vstd::arithmetic::div_mod::lemma_fundamental_div_mod_converse(x - 1, len, q - 1, len - 1);
        } else {
            vstd::arithmetic::div_mod::lemma_fundamental_div_mod_converse(x - 1, len, q, m - 1);
        }
    }
}

/// Moving up once for every theme in the list comes back to the theme one
/// started on.
pub proof fn law_up_cycles(i: int, len: int)
    requires
        0 <= i < len,
    ensures
        up_times(i, len, len as nat) == i,
{
    lemma_up_times(i, len, len as nat);
    vstd::arithmetic::div_mod::lemma_fundamental_div_mod_converse(i - len, len, -1, i);
}

/// The index found is an occurrence, and one is found where there is one.
proof fn lemma_index_from_finds(s: Seq<Seq<char>>, x: Seq<char>, i: int)
    requires
        0 <= i,
    ensures
        index_from(s, x, i) matches Some(k) ==> i <= k < s.len() && s[k] == x,
        (exists|k: int| i <= k < s.len() && s[k] == x) ==> index_from(s, x, i) is Some,
    decreases s.len() - i,
{
    if i < s.len() && s[i] != x {
        lemma_index_from_finds(s, x, i + 1);
        assert forall|k: int| i <= k < s.len() && s[k] == x implies i + 1 <= k by {}
    }
}

/// Where a name is in the theme list, the index kept or restored for it
/// points at that name: the list starts on the original theme, and a
/// refreshed list stays on the theme that was selected.
pub proof fn law_selection_finds_name(themes: Seq<Seq<char>>, name: Seq<char>)
    requires
        themes.contains(name),
    ensures
        0 <= index_or_first(themes, Some(name)) < themes.len(),
        themes[index_or_first(themes, Some(name))] == name,
        initial_selection(themes, Some(name)) == Some(index_or_first(themes, Some(name))),
{
    lemma_index_from_finds(themes, name, 0);
}

/// Applying a theme to a configuration with an import array touches only the
/// theme entry: every other entry keeps its place and its value, and at most
/// one entry is added, at the end.
pub proof fn law_apply_keeps_other_entries(
    l: ImportLayout,
    es: Seq<Option<Seq<char>>>,
    path: Seq<char>,
    dir: Seq<char>,
    home: Seq<char>,
)
    requires
        l.has_array,
    ensures
        ({
            let r = applied_entries(l, es, path, dir, home);
            &&& es.len() <= r.len() <= es.len() + 1
            &&& forall|j: int|
                0 <= j < es.len() && theme_index(es, dir, home) != Some(j) ==> r[j] == es[j]
        }),
{
    crate::config::lemma_theme_index_in_range(es, dir, home, 0);
}

/// `s` starts with `~/`, which an import entry reads as the home directory.
pub open spec fn tilde_form(s: Seq<char>) -> bool {
    s.len() >= 2 && s[0] == '~' && s[1] == '/'
}

/// The theme's file in the themes directory, before any `~/` is put in.
pub open spec fn full_theme_path(dir: Seq<char>, stem: Seq<char>) -> Seq<char> {
    join(dir, theme_file_name(stem))
}

/// A theme name that can stand in a file name: not empty, without `/`.
pub open spec fn valid_stem(stem: Seq<char>) -> bool {
    stem.len() > 0 && slash_free(stem)
}

/// What a theme's file name is made of.
proof fn lemma_theme_file_name(stem: Seq<char>)
    requires
        valid_stem(stem),
    ensures
        ({
            let name = theme_file_name(stem);
            &&& slash_free(name)
            &&& is_real_piece(name)
            &&& piece_component(name) == ComponentView::Normal(name)
            &&& !has_root(name)
            &&& !has_cur_dir(name)
            &&& pieces(name) == seq![name]
            &&& piece_components(pieces(name)) == seq![ComponentView::Normal(name)]
            &&& name_stem(name) == stem
        }),
{
    let name = theme_file_name(stem);
    let n: int = stem.len() as int;
    assert(name.len() == n + 5);
    assert(name[n] == '.' && name[n + 1] == 't' && name[n + 2] == 'o' && name[n + 3] == 'm'
        && name[n + 4] == 'l');
    assert forall|i: int| 0 <= i < name.len() implies name[i] != '/' by {
        if i < n {
            assert(name[i] == stem[i]);
        }
    }
    assert(name != seq!['.']) by {
        assert(name.len() != 1);
    }
    assert(name != seq!['.', '.']) by {
        assert(name.len() != 2);
    }
    assert(name[1] != '/');
    lemma_pieces_of_slash_free(name);
    lemma_pc_single(name);
    let d1 = name.drop_last();
    let d2 = d1.drop_last();
    let d3 = d2.drop_last();
    let d4 = d3.drop_last();
    assert(d1.last() == 'm' && d2.last() == 'o' && d3.last() == 't' && d4.last() == '.');
    assert(d4.len() == n + 1);
    assert(last_dot(name) == last_dot(d1));
    assert(last_dot(d1) == last_dot(d2));
    assert(last_dot(d2) == last_dot(d3));
    assert(last_dot(d3) == last_dot(d4));
    assert(last_dot(d4) == n);
    assert(name.subrange(0, n) =~= stem);
}

/// The components of the theme's file: those of the themes directory, then
/// the file name.
proof fn lemma_full_components(dir: Seq<char>, stem: Seq<char>)
    requires
        valid_stem(stem),
    ensures
        components(full_theme_path(dir, stem)) == components(dir) + seq![
            ComponentView::Normal(theme_file_name(stem)),
        ],
{
    lemma_theme_file_name(stem);
    lemma_components_join(dir, theme_file_name(stem));
}

/// Where the theme's file is written as `~/rel`, the home directory joined
/// with `rel` has the same components as the file, and the last component of
/// `rel`'s pieces is the file name.
proof fn lemma_home_form(full: Seq<char>, home: Seq<char>, rel: Seq<char>, name: Seq<char>)
    requires
        strip_prefix(full, home) == Some(rel),
        components(full).len() > 0,
        components(full).last() == ComponentView::Normal(name),
    ensures
        components(join(home, rel)) == components(full),
        !same_path(home, full) ==> piece_components(pieces(rel)).len() > 0
            && piece_components(pieces(rel)).last() == ComponentView::Normal(name),
{
    let f = components(full);
    let b = components(home);
    let bp = body_pieces(full);
    let h = head_len(full);
    let body = full.subrange(h, full.len() as int);
    lemma_pieces_slash_free(body);
    let hc = head_components(full);
    assert(f == hc + piece_components(bp));
    assert(piece_components(bp).len() > 0) by {
        if piece_components(bp).len() == 0 {
            assert(f =~= hc);
        }
    }
    assert(f.last() == piece_components(bp).last());
    if b.len() == 0 {
        assert(home.len() == 0) by {
            if home.len() > 0 {
                lemma_components_nonempty(home);
            }
        }
        let st = strip_trailing(bp);
        lemma_pc_strip_trailing(bp);
        lemma_subrange_slash_free(bp, 0, st.len() as int);
        assert(st.len() > 0);
        let x = join_pieces(st);
        lemma_pieces_join(st);
        assert(rel == head(full) + x);
        if has_root(full) {
            assert(rel =~= seq!['/'] + x);
            assert(has_root(rel));
            assert(rel.subrange(1, rel.len() as int) =~= x);
            assert(join(home, rel) == rel);
            assert(components(rel) =~= f);
            lemma_pc_pieces_body(rel);
        } else if has_cur_dir(full) {
            assert(full.len() >= 2) by {
                if full.len() == 1 {
                    assert(body =~= Seq::<char>::empty());
                    assert(pieces(body) =~= seq![Seq::<char>::empty()]);
                    lemma_pc_single(Seq::<char>::empty());
                }
            }
            assert(body[0] == '/');
            lemma_first_piece(body);
            assert(bp[0].len() == 0) by {
                if bp[0].len() > 0 {
                    assert(bp[0][0] == body[0]);
                }
            }
            assert(st[0] == bp[0]);
            assert(st.len() >= 2) by {
                if st.len() == 1 {
                    assert(st.last() == st[0]);
                }
            }
            lemma_first_piece(x);
            assert(x.len() > 0) by {
                if x.len() == 0 {
                    assert(pieces(x) =~= seq![Seq::<char>::empty()]);
                }
            }
            assert(x[0] == '/');
            assert(rel =~= seq!['.'] + x);
            assert(rel[1] == '/');
            assert(has_cur_dir(rel));
            assert(rel.subrange(1, rel.len() as int) =~= x);
            assert(join(home, rel) =~= rel);
            assert(components(rel) =~= f);
            lemma_pc_pieces_body(rel);
        } else {
            assert(h == 0);
            assert(body =~= full);
            assert(rel =~= x);
            lemma_first_piece(full);
            crate::path::lemma_pieces_nonempty(full);
            let p0 = bp[0];
            assert(p0.len() > 0) by {
                if p0.len() == 0 {
                    assert(full[0] == '/');
                }
            }
            assert(st[0] == p0);
            lemma_first_piece(x);
            assert(pieces(x)[0] == p0);
            assert(x[0] == full[0]) by {
                assert(x[0] == p0[0]);
                assert(full[0] == p0[0]);
            }
            assert(!has_root(x));
            assert(!has_cur_dir(x)) by {
                if p0.len() >= 2 {
                    assert(x[1] == p0[1]);
                    assert(slash_free(p0));
                } else {
                    if full.len() > 1 {
                        assert(full[1] == '/');
                    }
                }
            }
            assert(x.subrange(0, x.len() as int) =~= x);
            assert(join(home, rel) =~= rel);
            assert(components(rel) =~= f);
            lemma_pc_pieces_body(rel);
        }
    } else {
        let k = b.len();
        let n = (k - hc.len()) as nat;
        assert(home.len() > 0) by {
            if home.len() == 0 {
                assert(home.subrange(0, 0) =~= Seq::<char>::empty());
                assert(body_pieces(home) =~= seq![Seq::<char>::empty()]);
                lemma_pc_single(Seq::<char>::empty());
                assert(b.len() == 0);
            }
        }
        lemma_pc_skip_reals(bp, n);
        let sk = skip_reals(bp, n);
        lemma_subrange_slash_free(bp, bp.len() - sk.len(), bp.len() as int);
        let st = strip_trailing(sk);
        lemma_pc_strip_trailing(sk);
        lemma_subrange_slash_free(sk, 0, st.len() as int);
        let r = strip_leading(st);
        lemma_pc_strip_leading(st);
        lemma_subrange_slash_free(st, st.len() - r.len(), st.len() as int);
        assert(rel == join_pieces(r));
        assert(f.subrange(0, k as int) == b);
        assert(piece_components(r) =~= f.skip(k as int));
        if k == f.len() {
            assert(f.subrange(0, k as int) =~= f);
            assert(r.len() == 0) by {
                if r.len() > 0 {
                    assert(r =~= seq![r[0]] + r.drop_first());
                    lemma_pc_concat(seq![r[0]], r.drop_first());
                    lemma_pc_single(r[0]);
                    assert(is_real_piece(r[0]));
                    assert(piece_components(r).len() >= 1);
                    assert(f.skip(k as int).len() == 0);
                }
            }
            assert(rel =~= Seq::<char>::empty());
            lemma_components_join(home, rel);
            assert(pieces(rel) =~= seq![Seq::<char>::empty()]);
            lemma_pc_single(Seq::<char>::empty());
            assert(components(join(home, rel)) =~= f);
        } else {
            assert(r.len() > 0);
            lemma_pieces_join(r);
            lemma_first_piece(rel);
            assert(!has_root(rel)) by {
                assert(r[0].len() > 0);
                assert(rel[0] == r[0][0]);
                assert(slash_free(r[0]));
            }
            lemma_components_join(home, rel);
            assert(components(join(home, rel)) =~= b + f.skip(k as int));
            assert(b + f.skip(k as int) =~= f);
        }
    }
}

/// The path written into the configuration for a theme is read back as an
/// entry for that theme: with its `~/` read as the home directory it is the
/// same path as the theme's file in the themes directory, so it names a file
/// in the themes directory; and its file stem is the theme's name, except
/// where the home directory is the theme file itself (the entry is then
/// `~/`, which has no file stem).
///
/// Left out: a themes directory written with a literal `~/` that is not
/// under the home directory (the entry would then be read as lying under the
/// home directory).
pub proof fn law_theme_path_round_trip(dir: Seq<char>, stem: Seq<char>, home: Seq<char>)
    requires
        valid_stem(stem),
        tilde_form(full_theme_path(dir, stem)) ==> strip_prefix(
            full_theme_path(dir, stem),
            home,
        ) is Some,
    ensures
        same_path(expand_home(theme_path_spec(dir, stem, home), home), full_theme_path(dir, stem)),
        theme_import_spec(theme_path_spec(dir, stem, home), dir, home),
        !same_path(home, full_theme_path(dir, stem)) ==> file_stem(theme_path_spec(dir, stem, home))
            == Some(stem),
{
    let full = full_theme_path(dir, stem);
    let name = theme_file_name(stem);
    lemma_theme_file_name(stem);
    lemma_full_components(dir, stem);
    let f = components(full);
    assert(f.last() == ComponentView::Normal(name));
    assert(f.drop_last() =~= components(dir));
    match strip_prefix(full, home) {
        None => {
            assert(theme_path_spec(dir, stem, home) == full);
            assert(expand_home(full, home) == full);
        },
        Some(rel) => {
            let path = seq!['~', '/'] + rel;
            assert(theme_path_spec(dir, stem, home) == path);
            assert(path.subrange(2, path.len() as int) =~= rel);
            lemma_home_form(full, home, rel, name);
            assert(expand_home(path, home) == join(home, rel));
            if !same_path(home, full) {
                // the components of `~/rel`
                assert(path =~= seq!['~'] + seq!['/'] + rel);
                assert(!has_root(path) && !has_cur_dir(path));
                assert(path.subrange(0, path.len() as int) =~= path);
                lemma_pieces_concat(seq!['~'], rel);
                assert(slash_free(seq!['~']));
                lemma_pieces_of_slash_free(seq!['~']);
                lemma_pc_concat(seq![seq!['~']], pieces(rel));
                lemma_pc_single(seq!['~']);
                assert(seq!['~'] != seq!['.', '.']);
                assert(seq!['~'] != seq!['.']);
                let c = components(path);
                assert(c =~= seq![ComponentView::Normal(seq!['~'])] + piece_components(
                    pieces(rel),
                ));
                assert(c.last() == ComponentView::Normal(name));
            }
        },
    }
}

/// The theme index found from `k` on is the first theme entry from there.
proof fn lemma_theme_index_first(es: Seq<Option<Seq<char>>>, d: Seq<char>, h: Seq<char>, k: int)
    requires
        0 <= k,
    ensures
        theme_index_from(es, d, h, k) matches Some(i) ==> k <= i < es.len() && is_theme_entry(
            es[i],
            d,
            h,
        ) && forall|j: int| k <= j < i ==> !is_theme_entry(#[trigger] es[j], d, h),
        theme_index_from(es, d, h, k) is None ==> forall|j: int|
            k <= j < es.len() ==> !is_theme_entry(#[trigger] es[j], d, h),
    decreases es.len() - k,
{
    if k < es.len() && !is_theme_entry(es[k], d, h) {
        lemma_theme_index_first(es, d, h, k + 1);
    }
}

/// The first theme entry from `k` on is the one found.
proof fn lemma_theme_index_is(es: Seq<Option<Seq<char>>>, d: Seq<char>, h: Seq<char>, k: int, i: int)
    requires
        0 <= k <= i < es.len(),
        is_theme_entry(es[i], d, h),
        forall|j: int| k <= j < i ==> !is_theme_entry(#[trigger] es[j], d, h),
    ensures
        theme_index_from(es, d, h, k) == Some(i),
    decreases i - k,
{
    if k < i {
        assert(!is_theme_entry(es[k], d, h));
        lemma_theme_index_is(es, d, h, k + 1, i);
    }
}

/// After a theme has been applied, the configuration's theme is that theme:
/// what a read gives back of a write. (Left out: the inputs that
/// `law_theme_path_round_trip` leaves out, and the home directory being the
/// theme file itself, whose entry `~/` has no file stem.)
pub proof fn law_applied_theme_is_current(
    l: ImportLayout,
    es: Seq<Option<Seq<char>>>,
    dir: Seq<char>,
    home: Seq<char>,
    stem: Seq<char>,
)
    requires
        valid_stem(stem),
        !same_path(home, full_theme_path(dir, stem)),
        tilde_form(full_theme_path(dir, stem)) ==> strip_prefix(
            full_theme_path(dir, stem),
            home,
        ) is Some,
    ensures
        theme_stem(applied_entries(l, es, theme_path_spec(dir, stem, home), dir, home), dir, home)
            == Some(stem),
{
    let path = theme_path_spec(dir, stem, home);
    law_theme_path_round_trip(dir, stem, home);
    assert(is_theme_entry(Some(path), dir, home));
    let r = applied_entries(l, es, path, dir, home);
    lemma_theme_index_first(es, dir, home, 0);
    if !l.has_array {
        assert(r[0] == Some(path));
        lemma_theme_index_is(r, dir, home, 0, 0);
    } else {
        match theme_index(es, dir, home) {
            Some(i) => {
                assert forall|j: int| 0 <= j < i implies !is_theme_entry(#[trigger] r[j], dir, home) by {
                    assert(r[j] == es[j]);
                }
                lemma_theme_index_is(r, dir, home, 0, i);
            },
            None => {
                assert forall|j: int| 0 <= j < es.len() implies !is_theme_entry(
                    #[trigger] r[j],
                    dir,
                    home,
                ) by {
                    assert(r[j] == es[j]);
                }
                lemma_theme_index_is(r, dir, home, 0, es.len() as int);
            },
        }
    }
}

/// Applying one theme and then another gives the entries that applying the
/// second alone gives: the configuration never holds more than the one theme
/// entry that the program writes.
pub proof fn law_apply_twice(
    l: ImportLayout,
    es: Seq<Option<Seq<char>>>,
    dir: Seq<char>,
    home: Seq<char>,
    first: Seq<char>,
    second: Seq<char>,
)
    requires
        valid_stem(first),
        tilde_form(full_theme_path(dir, first)) ==> strip_prefix(
            full_theme_path(dir, first),
            home,
        ) is Some,
    ensures
        applied_entries(
            ImportLayout { general: GeneralShape::Table, has_array: true },
            applied_entries(l, es, theme_path_spec(dir, first, home), dir, home),
            theme_path_spec(dir, second, home),
            dir,
            home,
        ) == applied_entries(l, es, theme_path_spec(dir, second, home), dir, home),
{
    let p1 = theme_path_spec(dir, first, home);
    let p2 = theme_path_spec(dir, second, home);
    law_theme_path_round_trip(dir, first, home);
    assert(is_theme_entry(Some(p1), dir, home));
    let r1 = applied_entries(l, es, p1, dir, home);
    lemma_theme_index_first(es, dir, home, 0);
    if !l.has_array {
        lemma_theme_index_is(r1, dir, home, 0, 0);
        assert(r1.update(0, Some(p2)) =~= seq![Some(p2)]);
    } else {
        match theme_index(es, dir, home) {
            Some(i) => {
                assert forall|j: int| 0 <= j < i implies !is_theme_entry(#[trigger] r1[j], dir, home) by {
                    assert(r1[j] == es[j]);
                }
                lemma_theme_index_is(r1, dir, home, 0, i);
                assert(r1.update(i, Some(p2)) =~= es.update(i, Some(p2)));
            },
            None => {
                assert forall|j: int| 0 <= j < es.len() implies !is_theme_entry(
                    #[trigger] r1[j],
                    dir,
                    home,
                ) by {
                    assert(r1[j] == es[j]);
                }
                lemma_theme_index_is(r1, dir, home, 0, es.len() as int);
                assert(r1.update(es.len() as int, Some(p2)) =~= es.push(Some(p2)));
            },
        }
    }
}

/// Where the configuration had an import array without a theme entry,
/// applying a theme and then restoring (removing the theme entry) gives back
/// the entries it had.
pub proof fn law_restore_undoes_apply(
    es: Seq<Option<Seq<char>>>,
    dir: Seq<char>,
    home: Seq<char>,
    stem: Seq<char>,
)
    requires
        theme_index(es, dir, home) is None,
        valid_stem(stem),
        tilde_form(full_theme_path(dir, stem)) ==> strip_prefix(
            full_theme_path(dir, stem),
            home,
        ) is Some,
    ensures
        ({
            let l = ImportLayout { general: GeneralShape::Table, has_array: true };
            removed_entries(
                l,
                applied_entries(l, es, theme_path_spec(dir, stem, home), dir, home),
                dir,
                home,
            ) == es
        }),
{
    let p = theme_path_spec(dir, stem, home);
    law_theme_path_round_trip(dir, stem, home);
    let l = ImportLayout { general: GeneralShape::Table, has_array: true };
    let r = applied_entries(l, es, p, dir, home);
    lemma_theme_index_first(es, dir, home, 0);
    assert forall|j: int| 0 <= j < es.len() implies !is_theme_entry(#[trigger] r[j], dir, home) by {
        assert(r[j] == es[j]);
    }
    lemma_theme_index_is(r, dir, home, 0, es.len() as int);
    assert(r.remove(es.len() as int) =~= es);
}

} // verus!
