//! Writing the managed block twice changes nothing the second time, and a
//! write leaves exactly one managed block.

use vstd::prelude::*;

use super::config::{
    add_kept, assemble, is_begin_line, is_end_line, is_host_alias_line, join_term, kept_body,
    managed_block_lines, replace_in_place, scan_lines, spec_ensure_ssh_config,
    spec_proxy_command, spec_render_managed_block, spec_upsert_config, Kept, SshConfigError,
    MANAGED_BLOCK_BEGIN, MANAGED_BLOCK_END,
};
use crate::text::{
    all_ws, contains, is_ws, join, occurs_at, lemma_join_push, lemma_trim_end_shape, lines, lines_from,
    lemma_trim_end_ws_suffix, strip_cr, trim, trim_end, words,
};
use crate::text_props::{
    ends_cr, lemma_join_split, lemma_lines_concat, lemma_lines_of_joined, lemma_lines_single,
    lemma_split_join, lemma_split_no_cr, lemma_split_nonempty, lemma_trim_char,
    lemma_ws_suffix_trim, lemma_ws_suffix_words, no_newline, split_from,
};

verus! {

broadcast use vstd::string::group_string_axioms;

/// A line that is kept outside the managed block.
pub open spec fn keepable(l: Seq<char>) -> bool {
    !is_begin_line(l) && !is_end_line(l) && !is_host_alias_line(l)
}

/// A block whose lines (once followed by a line ending) open with the begin
/// marker, close with the end marker and hold no marker in between.
pub open spec fn is_managed_block(block: Seq<char>) -> bool {
    let ls = lines(block + seq!['\n']);
    &&& ls.len() >= 2
    &&& is_begin_line(ls[0])
    &&& is_end_line(ls.last())
    &&& forall|i: int|
        0 < i < ls.len() - 1 ==> !is_begin_line(#[trigger] ls[i]) && !is_end_line(ls[i])
}

/// No line ends with a carriage return.
pub open spec fn no_cr_endings(ls: Seq<Seq<char>>) -> bool {
    forall|j: int| 0 <= j < ls.len() ==> !ends_cr(#[trigger] ls[j])
}

/// The content kept around the managed block of `conf` reads back as the
/// same lines: the content before it holds no `\r\n` once written, and no
/// line after it ends with a carriage return.
pub open spec fn kept_lines_clean(conf: Seq<char>) -> bool {
    match scan_lines(lines(conf), false, false) {
        Ok((pre, post, found)) => !contains(kept_body(pre), seq!['\r', '\n']) && no_cr_endings(
            post,
        ),
        Err(_) => true,
    }
}

/// Exactly one line is a begin marker line and exactly one an end marker
/// line.
pub open spec fn one_managed_block(ls: Seq<Seq<char>>) -> bool {
    &&& exists|i: int|
        0 <= i < ls.len() && is_begin_line(ls[i]) && forall|j: int|
            0 <= j < ls.len() && #[trigger] is_begin_line(ls[j]) ==> j == i
    &&& exists|i: int|
        0 <= i < ls.len() && is_end_line(ls[i]) && forall|j: int|
            0 <= j < ls.len() && #[trigger] is_end_line(ls[j]) ==> j == i
}

/// Lines never hold a line ending.
proof fn lemma_lines_no_newline(t: Seq<char>, cur: Seq<char>)
    requires
        no_newline(cur),
    ensures
        forall|j: int|
            0 <= j < lines_from(t, cur).len() ==> no_newline(#[trigger] lines_from(t, cur)[j]),
    decreases t.len(),
{
    if t.len() > 0 {
        if t[0] == '\n' {
            lemma_lines_no_newline(t.drop_first(), seq![]);
            let c = if cur.len() > 0 && cur.last() == '\r' {
                cur.drop_last()
            } else {
                cur
            };
            assert forall|j: int|
                0 <= j < lines_from(t, cur).len() implies no_newline(
                #[trigger] lines_from(t, cur)[j],
            ) by {
                if j == 0 {
                    assert(lines_from(t, cur)[0] == c);
                } else {
                    assert(lines_from(t, cur)[j] == lines_from(t.drop_first(), seq![])[j - 1]);
                }
            }
        } else {
            lemma_lines_no_newline(t.drop_first(), cur.push(t[0]));
            assert(lines_from(t, cur) == lines_from(t.drop_first(), cur.push(t[0])));
        }
    } else {
        assert(lines_from(t, cur).len() == 0 || lines_from(t, cur) == seq![cur]);
    }
}

/// The lines kept by a successful scan are keepable and hold no line ending.
proof fn lemma_scan_kept(ls: Seq<Seq<char>>, inside: bool, found: bool)
    requires
        scan_lines(ls, inside, found) is Ok,
        forall|m: int| 0 <= m < ls.len() ==> no_newline(#[trigger] ls[m]),
    ensures
        forall|j: int|
            0 <= j < scan_lines(ls, inside, found)->Ok_0.0.len() ==> keepable(
                #[trigger] scan_lines(ls, inside, found)->Ok_0.0[j],
            ) && no_newline(scan_lines(ls, inside, found)->Ok_0.0[j]),
        forall|j: int|
            0 <= j < scan_lines(ls, inside, found)->Ok_0.1.len() ==> keepable(
                #[trigger] scan_lines(ls, inside, found)->Ok_0.1[j],
            ) && no_newline(scan_lines(ls, inside, found)->Ok_0.1[j]),
    decreases ls.len(),
{
    if ls.len() > 0 {
        let l = ls[0];
        let rest = ls.drop_first();
        assert forall|m: int| 0 <= m < rest.len() implies no_newline(#[trigger] rest[m]) by {
            assert(rest[m] == ls[m + 1]);
        }
        if is_begin_line(l) {
            lemma_scan_kept(rest, true, found);
        } else if is_end_line(l) {
            lemma_scan_kept(rest, false, true);
        } else if inside {
            lemma_scan_kept(rest, inside, found);
        } else if is_host_alias_line(l) {
        } else {
            lemma_scan_kept(rest, inside, found);
            let (p, q, f) = scan_lines(rest, inside, found)->Ok_0;
            let (p2, q2, f2) = scan_lines(ls, inside, found)->Ok_0;
            assert(no_newline(ls[0]));
            if found {
                assert(p2 == p && q2 == seq![l] + q);
                assert forall|j: int| 0 <= j < q2.len() implies keepable(#[trigger] q2[j])
                    && no_newline(q2[j]) by {
                    if j > 0 {
                        assert(q2[j] == q[j - 1]);
                    }
                }
            } else {
                assert(p2 == seq![l] + p && q2 == q);
                assert forall|j: int| 0 <= j < p2.len() implies keepable(#[trigger] p2[j])
                    && no_newline(p2[j]) by {
                    if j > 0 {
                        assert(p2[j] == p[j - 1]);
                    }
                }
            }
        }
    }
}

/// Keepable lines in front of the rest are kept, in order, before or after
/// the managed block as `found` says.
proof fn lemma_scan_keepable_prefix(a: Seq<Seq<char>>, r: Seq<Seq<char>>, found: bool)
    requires
        forall|j: int| 0 <= j < a.len() ==> keepable(#[trigger] a[j]),
    ensures
        scan_lines(a + r, false, found) == add_kept(a, found, scan_lines(r, false, found)),
    decreases a.len(),
{
    if a.len() == 0 {
        assert(a + r =~= r);
        match scan_lines(r, false, found) {
            Ok((p, q, f)) => {
                assert(a + p =~= p);
                assert(a + q =~= q);
            },
            Err(e) => {},
        }
    } else {
        let rest = a.drop_first();
        assert forall|j: int| 0 <= j < rest.len() implies keepable(#[trigger] rest[j]) by {
            assert(rest[j] == a[j + 1]);
        }
        lemma_scan_keepable_prefix(rest, r, found);
        assert((a + r)[0] == a[0]);
        assert((a + r).drop_first() =~= rest + r);
        assert(keepable(a[0]));
        match scan_lines(r, false, found) {
            Ok((p, q, f)) => {
                assert(seq![a[0]] + (rest + p) =~= a + p);
                assert(seq![a[0]] + (rest + q) =~= a + q);
            },
            Err(e) => {},
        }
    }
}

/// Lines without markers inside an open managed block are skipped.
proof fn lemma_scan_inside(m: Seq<Seq<char>>, r: Seq<Seq<char>>, found: bool)
    requires
        forall|j: int| 0 <= j < m.len() ==> !is_begin_line(#[trigger] m[j]) && !is_end_line(m[j]),
    ensures
        scan_lines(m + r, true, found) == scan_lines(r, true, found),
    decreases m.len(),
{
    if m.len() == 0 {
        assert(m + r =~= r);
    } else {
        let rest = m.drop_first();
        assert forall|j: int| 0 <= j < rest.len() implies !is_begin_line(#[trigger] rest[j])
            && !is_end_line(rest[j]) by {
            assert(rest[j] == m[j + 1]);
        }
        lemma_scan_inside(rest, r, found);
        assert((m + r)[0] == m[0]);
        assert((m + r).drop_first() =~= rest + r);
    }
}

/// A managed block read from outside any block is skipped whole, and what
/// follows is read as coming after it.
proof fn lemma_scan_block(block: Seq<char>, r: Seq<Seq<char>>)
    requires
        is_managed_block(block),
    ensures
        scan_lines(lines(block + seq!['\n']) + r, false, false) == scan_lines(r, false, true),
{
    let ls = lines(block + seq!['\n']);
    let n = ls.len();
    let mid = ls.subrange(1, n - 1);
    assert forall|j: int| 0 <= j < mid.len() implies !is_begin_line(#[trigger] mid[j])
        && !is_end_line(mid[j]) by {
        assert(mid[j] == ls[j + 1]);
    }
    let all = ls + r;
    assert(all[0] == ls[0]);
    assert(all.drop_first() =~= mid + (seq![ls.last()] + r));
    lemma_scan_inside(mid, seq![ls.last()] + r, false);
    lemma_markers_differ();
    assert(!is_begin_line(ls.last()));
    assert((seq![ls.last()] + r)[0] == ls.last());
    assert((seq![ls.last()] + r).drop_first() =~= r);
    assert(scan_lines(all, false, false) == scan_lines(all.drop_first(), true, false));
}

/// Lines each followed by a line ending, then more text: the lines (each
/// without a final carriage return), then the lines of the rest.
proof fn lemma_lines_join_term(p: Seq<Seq<char>>, r: Seq<char>)
    requires
        forall|j: int| 0 <= j < p.len() ==> no_newline(#[trigger] p[j]),
    ensures
        lines(join_term(p) + r) == p.map_values(|l: Seq<char>| strip_cr(l)) + lines(r),
    decreases p.len(),
{
    if p.len() == 0 {
        assert(join_term(p) + r =~= r);
        assert(p.map_values(|l: Seq<char>| strip_cr(l)) + lines(r) =~= lines(r));
    } else {
        let rest = p.drop_first();
        assert forall|j: int| 0 <= j < rest.len() implies no_newline(#[trigger] rest[j]) by {
            assert(rest[j] == p[j + 1]);
        }
        lemma_lines_join_term(rest, r);
        let t = join_term(rest) + r;
        assert(join_term(p) + r =~= p[0] + seq!['\n'] + t);
        lemma_lines_single(p[0], t, seq![]);
        assert(Seq::<char>::empty() + p[0] =~= p[0]);
        assert(p.map_values(|l: Seq<char>| strip_cr(l)) =~= seq![strip_cr(p[0])] + rest.map_values(
            |l: Seq<char>| strip_cr(l),
        ));
        assert(seq![strip_cr(p[0])] + (rest.map_values(|l: Seq<char>| strip_cr(l)) + lines(r))
            =~= p.map_values(|l: Seq<char>| strip_cr(l)) + lines(r));
    }
}

/// Text that ends with a line ending, then more text: the lines of each.
proof fn lemma_lines_append(x: Seq<char>, t: Seq<char>, cur: Seq<char>)
    requires
        x.len() > 0,
        x.last() == '\n',
    ensures
        lines_from(x + t, cur) == lines_from(x, cur) + lines_from(t, seq![]),
    decreases x.len(),
{
    let xt = x + t;
    assert(xt[0] == x[0]);
    assert(xt.drop_first() =~= x.drop_first() + t);
    if x.len() == 1 {
        assert(x.drop_first() =~= Seq::<char>::empty());
        assert(x.drop_first() + t =~= t);
        assert(lines_from(x.drop_first(), seq![]) =~= Seq::<Seq<char>>::empty());
        assert(seq![strip_cr(cur)] + Seq::<Seq<char>>::empty() =~= seq![strip_cr(cur)]);
    } else {
        if x[0] == '\n' {
            lemma_lines_append(x.drop_first(), t, seq![]);
            assert(seq![strip_cr(cur)] + (lines_from(x.drop_first(), seq![]) + lines_from(
                t,
                seq![],
            )) =~= seq![strip_cr(cur)] + lines_from(x.drop_first(), seq![]) + lines_from(
                t,
                seq![],
            ));
        } else {
            lemma_lines_append(x.drop_first(), t, cur.push(x[0]));
        }
    }
}

/// Without final carriage returns, dropping them changes nothing.
proof fn lemma_strip_cr_none(ls: Seq<Seq<char>>)
    requires
        no_cr_endings(ls),
    ensures
        ls.map_values(|l: Seq<char>| strip_cr(l)) == ls,
{
    assert(ls.map_values(|l: Seq<char>| strip_cr(l)) =~= ls);
}

/// Lines around a managed block, all keepable: exactly one begin and one end
/// marker line.
proof fn lemma_one_block(p: Seq<Seq<char>>, lb: Seq<Seq<char>>, q: Seq<Seq<char>>)
    requires
        forall|j: int| 0 <= j < p.len() ==> keepable(#[trigger] p[j]),
        forall|j: int| 0 <= j < q.len() ==> keepable(#[trigger] q[j]),
        lb.len() >= 2,
        is_begin_line(lb[0]),
        is_end_line(lb.last()),
        forall|i: int|
            0 < i < lb.len() - 1 ==> !is_begin_line(#[trigger] lb[i]) && !is_end_line(lb[i]),
    ensures
        one_managed_block(p + lb + q),
{
    let ls = p + lb + q;
    lemma_markers_differ();
    let b = p.len() as int;
    let e = p.len() + lb.len() - 1;
    assert(ls[b] == lb[0]);
    assert(ls[e] == lb.last());
    assert forall|j: int| 0 <= j < ls.len() && #[trigger] is_begin_line(ls[j]) implies j == b by {
        if j < b {
            assert(ls[j] == p[j]);
        } else if j < b + lb.len() {
            assert(ls[j] == lb[j - b]);
            if j == e {
                assert(!is_begin_line(lb.last()));
            }
        } else {
            assert(ls[j] == q[j - b - lb.len()]);
        }
    }
    assert forall|j: int| 0 <= j < ls.len() && #[trigger] is_end_line(ls[j]) implies j == e by {
        if j < b {
            assert(ls[j] == p[j]);
        } else if j < b + lb.len() {
            assert(ls[j] == lb[j - b]);
            if j == b {
                assert(!is_end_line(lb[0]));
            }
        } else {
            assert(ls[j] == q[j - b - lb.len()]);
        }
    }
}

/// A keepable line stays keepable once trailing whitespace is added.
proof fn lemma_keepable_ws_suffix(s: Seq<char>, w: Seq<char>)
    requires
        all_ws(w),
    ensures
        keepable(s + w) == keepable(s),
{
    lemma_ws_suffix_trim(s, w);
    lemma_ws_suffix_words(s, w, seq![]);
}

/// The first piece of whitespace extends the current piece only by whitespace.
proof fn lemma_first_piece_ws(w: Seq<char>, cur: Seq<char>)
    requires
        all_ws(w),
        keepable(split_from(w, cur)[0]),
    ensures
        keepable(cur),
    decreases w.len(),
{
    if w.len() > 0 {
        let rest = w.drop_first();
        assert forall|i: int| 0 <= i < rest.len() implies #[trigger] is_ws(rest[i]) by {
            assert(rest[i] == w[i + 1]);
        }
        if w[0] == '\n' {
            assert(split_from(w, cur)[0] == cur);
        } else {
            assert(split_from(w, cur) == split_from(rest, cur.push(w[0])));
            lemma_first_piece_ws(rest, cur.push(w[0]));
            assert(is_ws(w[0]));
            assert(all_ws(seq![w[0]]));
            assert(cur + seq![w[0]] =~= cur.push(w[0]));
            lemma_keepable_ws_suffix(cur, seq![w[0]]);
        }
    } else {
        assert(split_from(w, cur) == seq![cur]);
    }
}

/// Cutting off trailing whitespace keeps every piece keepable.
proof fn lemma_pieces_of_prefix(x: Seq<char>, cur: Seq<char>, n: int)
    requires
        0 <= n <= x.len(),
        all_ws(x.skip(n)),
        forall|j: int|
            0 <= j < split_from(x, cur).len() ==> keepable(#[trigger] split_from(x, cur)[j]),
    ensures
        forall|j: int|
            0 <= j < split_from(x.take(n), cur).len() ==> keepable(
                #[trigger] split_from(x.take(n), cur)[j],
            ),
    decreases x.len(),
{
    lemma_split_nonempty(x, cur);
    if n == 0 {
        assert(x.skip(0) =~= x);
        assert(keepable(split_from(x, cur)[0]));
        lemma_first_piece_ws(x, cur);
        assert(x.take(0) =~= Seq::<char>::empty());
        assert(split_from(x.take(n), cur) == seq![cur]);
    } else {
        let xr = x.drop_first();
        assert(x.take(n)[0] == x[0]);
        assert(x.take(n).drop_first() =~= xr.take(n - 1));
        assert(xr.skip(n - 1) =~= x.skip(n));
        if x[0] == '\n' {
            let ps = split_from(xr, seq![]);
            assert(split_from(x, cur) == seq![cur] + ps);
            assert(split_from(x, cur)[0] == cur);
            assert forall|j: int| 0 <= j < ps.len() implies keepable(#[trigger] ps[j]) by {
                assert(ps[j] == split_from(x, cur)[j + 1]);
            }
            lemma_pieces_of_prefix(xr, seq![], n - 1);
            let qs = split_from(xr.take(n - 1), seq![]);
            assert(split_from(x.take(n), cur) == seq![cur] + qs);
            assert forall|j: int|
                0 <= j < split_from(x.take(n), cur).len() implies keepable(
                #[trigger] split_from(x.take(n), cur)[j],
            ) by {
                if j > 0 {
                    assert(split_from(x.take(n), cur)[j] == qs[j - 1]);
                }
            }
        } else {
            assert(split_from(x, cur) == split_from(xr, cur.push(x[0])));
            lemma_pieces_of_prefix(xr, cur.push(x[0]), n - 1);
            assert(split_from(x.take(n), cur) == split_from(xr.take(n - 1), cur.push(x[0])));
        }
    }
}

/// The two markers are different lines.
proof fn lemma_markers_differ()
    ensures
        MANAGED_BLOCK_BEGIN@ != crate::ssh_setup::config::MANAGED_BLOCK_END@,
{
    reveal_strlit("# >>> awsome managed >>>");
    reveal_strlit("# <<< awsome managed <<<");
    assert(MANAGED_BLOCK_BEGIN@[2] != crate::ssh_setup::config::MANAGED_BLOCK_END@[2]);
}

/// The empty line is kept outside the managed block.
proof fn lemma_empty_keepable()
    ensures
        keepable(Seq::<char>::empty()),
{
    reveal_strlit("# >>> awsome managed >>>");
    reveal_strlit("# <<< awsome managed <<<");
    assert(trim(Seq::<char>::empty()) =~= Seq::<char>::empty());
    assert(words(Seq::<char>::empty()) =~= Seq::<Seq<char>>::empty());
    assert(MANAGED_BLOCK_BEGIN@.len() > 0);
    assert(crate::ssh_setup::config::MANAGED_BLOCK_END@.len() > 0);
}

/// The content kept before the block, written as `assemble` writes it and
/// followed by `t`, reads back as keepable lines `a`, then the block's lines,
/// then the lines of `t`; and `a` is written back the same way.
proof fn lemma_assemble_reads_back(k: Seq<Seq<char>>, block: Seq<char>, t: Seq<char>) -> (a: Seq<
    Seq<char>,
>)
    requires
        is_managed_block(block),
        forall|j: int| 0 <= j < k.len() ==> keepable(#[trigger] k[j]) && no_newline(k[j]),
        !contains(kept_body(k), seq!['\r', '\n']),
    ensures
        lines(assemble(k, block) + t) == a + lines(block + seq!['\n']) + lines(t),
        forall|j: int| 0 <= j < a.len() ==> keepable(#[trigger] a[j]),
        assemble(a, block) == assemble(k, block),
{
    let nl = seq!['\n'];
    let lb = lines(block + nl);
    let o = assemble(k, block);
    let s = kept_body(k);
    lemma_empty_keepable();
    lemma_trim_end_shape(join(k, nl));
    assert(o.len() > 0 && o.last() == '\n');
    lemma_lines_append(o, t, seq![]);
    if s.len() == 0 {
        assert(o =~= block + nl);
        let a = Seq::<Seq<char>>::empty();
        assert(join(a, nl) =~= Seq::<char>::empty());
        assert(trim_end(Seq::<char>::empty()) =~= Seq::<char>::empty());
        assert(kept_body(a) =~= s);
        assert(a + lb =~= lb);
        a
    } else {
        let r = seq!['\n'] + block + nl;
        assert(o =~= s + nl + r);
        // The kept content splits back into keepable pieces.
        assert(k.len() >= 1) by {
            if k.len() == 0 {
                assert(join(k, nl) =~= Seq::<char>::empty());
            }
        }
        lemma_split_join(k);
        let jk = join(k, nl);
        assert(s =~= jk.take(s.len() as int));
        assert forall|j: int|
            0 <= j < split_from(jk, seq![]).len() implies keepable(
            #[trigger] split_from(jk, seq![])[j],
        ) by {}
        lemma_pieces_of_prefix(jk, seq![], s.len() as int);
        let ps = split_from(s, seq![]);
        assert(Seq::<char>::empty() + s =~= s);
        lemma_split_no_cr(s, seq![]);
        lemma_lines_concat(s, r, seq![]);
        assert(r.drop_first() =~= block + nl);
        assert(r[0] == '\n');
        assert(lines_from(r, seq![]) == seq![Seq::<char>::empty()] + lb);
        let a = ps + seq![Seq::<char>::empty()];
        assert(lines(o) =~= a + lb);
        assert forall|j: int| 0 <= j < a.len() implies keepable(#[trigger] a[j]) by {
            if j < ps.len() {
                assert(a[j] == ps[j]);
            }
        }
        // Written again, the kept content comes back unchanged.
        lemma_split_nonempty(s, seq![]);
        lemma_join_push(ps, nl, seq![]);
        lemma_join_split(s, seq![]);
        assert(a =~= ps.push(Seq::<char>::empty()));
        assert(join(ps, nl) == s);
        assert(join(a, nl) =~= s + nl);
        assert(all_ws(nl));
        lemma_trim_end_ws_suffix(s, nl);
        assert(trim_end(s) == s);
        assert(kept_body(a) == s);
        a
    }
}

/// Writing a managed block into a config that already went through the same
/// write gives that config back unchanged, whenever the content kept around
/// the block reads back as the same lines. The config written holds exactly
/// one managed block.
pub proof fn lemma_upsert_config_idempotent(conf: Seq<char>, block: Seq<char>)
    requires
        is_managed_block(block),
        spec_upsert_config(conf, block) is Ok,
        kept_lines_clean(conf),
    ensures
        spec_upsert_config(spec_upsert_config(conf, block)->Ok_0, block) == spec_upsert_config(
            conf,
            block,
        ),
        one_managed_block(lines(spec_upsert_config(conf, block)->Ok_0)),
{
    let (pre, post, found) = scan_lines(lines(conf), false, false)->Ok_0;
    let nl = seq!['\n'];
    let lb = lines(block + nl);
    let o = spec_upsert_config(conf, block)->Ok_0;
    lemma_lines_no_newline(conf, seq![]);
    lemma_scan_kept(lines(conf), false, false);
    // What follows the block: the kept lines after it, when there is a block.
    let q = if found {
        post
    } else {
        Seq::<Seq<char>>::empty()
    };
    let t = join_term(q);
    assert(join_term(Seq::<Seq<char>>::empty()) =~= Seq::<char>::empty());
    assert(o =~= assemble(pre, block) + t);
    lemma_lines_join_term(q, Seq::<char>::empty());
    assert(lines(Seq::<char>::empty()) =~= Seq::<Seq<char>>::empty());
    assert(no_cr_endings(q));
    lemma_strip_cr_none(q);
    assert(q + Seq::<Seq<char>>::empty() =~= q);
    assert(t + Seq::<char>::empty() =~= t);
    assert(lines(t) == q);
    assert forall|j: int| 0 <= j < q.len() implies keepable(#[trigger] q[j]) by {
        assert(q[j] == post[j]);
    }
    let a = lemma_assemble_reads_back(pre, block, t);
    assert(lines(o) == a + lb + q);
    // Read again: the kept lines before the block, the block, those after it.
    lemma_scan_block(block, q);
    lemma_scan_keepable_prefix(q, Seq::<Seq<char>>::empty(), true);
    assert(q + Seq::<Seq<char>>::empty() =~= q);
    assert(scan_lines(Seq::<Seq<char>>::empty(), false, true) == Ok::<Kept, SshConfigError>(
        (Seq::<Seq<char>>::empty(), Seq::<Seq<char>>::empty(), true),
    ));
    assert(scan_lines(q, false, true) == Ok::<Kept, SshConfigError>(
        (Seq::<Seq<char>>::empty(), q, true),
    ));
    assert(a + lb + q =~= a + (lb + q));
    lemma_scan_keepable_prefix(a, lb + q, false);
    assert(a + Seq::<Seq<char>>::empty() =~= a);
    assert(scan_lines(lines(o), false, false) == Ok::<Kept, SshConfigError>((a, q, true)));
    assert(replace_in_place(a, q, block) == o);
    lemma_one_block(a, lb, q);
}

/// Neither text holds a line ending, so their concatenation holds none.
proof fn lemma_no_newline_concat(a: Seq<char>, b: Seq<char>)
    requires
        no_newline(a),
        no_newline(b),
    ensures
        no_newline(a + b),
{
    assert forall|i: int| 0 <= i < (a + b).len() implies (a + b)[i] != '\n' by {
        if i < a.len() {
            assert((a + b)[i] == a[i]);
        } else {
            assert((a + b)[i] == b[i - a.len()]);
        }
    }
}

/// A line whose third character after its indentation `a` is neither `>`
/// nor `<` is no marker line.
proof fn lemma_not_marker(x: Seq<char>, a: int)
    requires
        0 <= a,
        a + 2 < x.len(),
        forall|i: int| 0 <= i < a ==> #[trigger] is_ws(x[i]),
        !is_ws(x[a]),
        !is_ws(x[a + 2]),
        x[a + 2] != '>',
        x[a + 2] != '<',
    ensures
        !is_begin_line(x),
        !is_end_line(x),
{
    lemma_trim_char(x, a, a + 2);
    reveal_strlit("# >>> awsome managed >>>");
    reveal_strlit("# <<< awsome managed <<<");
    assert(MANAGED_BLOCK_BEGIN@[2] == '>');
    assert(MANAGED_BLOCK_END@[2] == '<');
}

/// Dropping a final carriage return keeps the characters before it.
proof fn lemma_strip_cr_keeps(x: Seq<char>, k: int)
    requires
        0 <= k < x.len() - 1,
    ensures
        strip_cr(x).len() > k,
        strip_cr(x)[k] == x[k],
{
}

/// A marker line stands alone on its line, unchanged by trimming.
proof fn lemma_marker_lines()
    ensures
        is_begin_line(MANAGED_BLOCK_BEGIN@),
        is_end_line(MANAGED_BLOCK_END@),
        no_newline(MANAGED_BLOCK_BEGIN@),
        no_newline(MANAGED_BLOCK_END@),
        strip_cr(MANAGED_BLOCK_BEGIN@) == MANAGED_BLOCK_BEGIN@,
        strip_cr(MANAGED_BLOCK_END@) == MANAGED_BLOCK_END@,
{
    reveal_strlit("# >>> awsome managed >>>");
    reveal_strlit("# <<< awsome managed <<<");
    let b = MANAGED_BLOCK_BEGIN@;
    let e = MANAGED_BLOCK_END@;
    assert(trim_end(b) == b);
    assert(crate::text::trim_start(b) == b);
    assert(trim_end(e) == e);
    assert(crate::text::trim_start(e) == e);
}

/// The rendered block is a managed block whenever the values put into it are
/// single lines.
pub proof fn lemma_rendered_block_is_managed(
    identity_file: Seq<char>,
    proxy_command: Seq<char>,
    null_known_hosts: Seq<char>,
)
    requires
        no_newline(identity_file),
        no_newline(proxy_command),
        no_newline(null_known_hosts),
    ensures
        is_managed_block(
            spec_render_managed_block(identity_file, proxy_command, null_known_hosts),
        ),
{
    let l = managed_block_lines(identity_file, proxy_command, null_known_hosts);
    reveal_strlit("# >>> awsome managed >>>");
    reveal_strlit("# <<< awsome managed <<<");
    reveal_strlit("# Added by the awsome CLI (`awsome setup-ssh`). Do not edit this block by");
    reveal_strlit("# hand; it is regenerated automatically and your changes will be lost.");
    reveal_strlit("Host ");
    reveal_strlit("awsome");
    reveal_strlit("    User ");
    reveal_strlit("ec2-user");
    reveal_strlit("    IdentityFile ");
    reveal_strlit("    IdentitiesOnly yes");
    reveal_strlit("    ProxyCommand ");
    reveal_strlit("    # This alias tunnels to whichever instance is currently selected, and");
    reveal_strlit("    # each instance has its own host key, so host-key pinning under the");
    reveal_strlit("    # shared `");
    reveal_strlit("` name would break on every switch. Skip it.");
    reveal_strlit("    UserKnownHostsFile ");
    reveal_strlit("    StrictHostKeyChecking no");
    reveal_strlit("    LogLevel ERROR");
    reveal_strlit("    ServerAliveInterval 30");
    lemma_marker_lines();
    lemma_no_newline_concat("Host "@, super::HOST_ALIAS@);
    lemma_no_newline_concat("    User "@, super::REMOTE_USER@);
    lemma_no_newline_concat("    IdentityFile "@, identity_file);
    lemma_no_newline_concat("    ProxyCommand "@, proxy_command);
    lemma_no_newline_concat("    # shared `"@, super::HOST_ALIAS@);
    lemma_no_newline_concat(
        "    # shared `"@ + super::HOST_ALIAS@,
        "` name would break on every switch. Skip it."@,
    );
    lemma_no_newline_concat("    UserKnownHostsFile "@, null_known_hosts);
    assert forall|j: int| 0 <= j < l.len() implies no_newline(#[trigger] l[j]) by {}
    lemma_lines_of_joined(l);
    let ls = l.map_values(|x: Seq<char>| strip_cr(x));
    assert(lines(spec_render_managed_block(identity_file, proxy_command, null_known_hosts) + seq![
        '\n',
    ]) == ls);
    assert(ls.len() == 16);
    assert(ls[0] == MANAGED_BLOCK_BEGIN@);
    assert(ls[15] == MANAGED_BLOCK_END@);
    assert forall|i: int| 0 < i < ls.len() - 1 implies !is_begin_line(#[trigger] ls[i])
        && !is_end_line(ls[i]) by {
        let x = l[i];
        let a: int = if i <= 3 {
            0
        } else {
            4
        };
        assert forall|k: int| 0 <= k <= a + 2 implies strip_cr(x)[k] == x[k] by {
            lemma_strip_cr_keeps(x, k);
        }
        lemma_strip_cr_keeps(x, a + 2);
        lemma_not_marker(strip_cr(x), a);
    }
}

/// Making sure the managed block is in place a second time finds the config
/// already up to date, when the key path and null device are single lines and
/// the content kept around the block reads back as the same lines; and the
/// contents written hold exactly one managed block.
pub proof fn lemma_ensure_ssh_config_idempotent(
    conf: Seq<char>,
    identity_file: Seq<char>,
    null_known_hosts: Seq<char>,
)
    requires
        no_newline(identity_file),
        no_newline(null_known_hosts),
        spec_ensure_ssh_config(conf, identity_file, null_known_hosts) is Ok,
        kept_lines_clean(conf),
    ensures
        spec_ensure_ssh_config(conf, identity_file, null_known_hosts) matches Ok(Some(updated))
            ==> spec_ensure_ssh_config(updated, identity_file, null_known_hosts) == Ok::<
            Option<Seq<char>>,
            SshConfigError,
        >(None) && one_managed_block(lines(updated)),
{
    let block = spec_render_managed_block(identity_file, spec_proxy_command(), null_known_hosts);
    reveal_strlit("awsome");
    reveal_strlit(" ssh-proxy %p");
    lemma_no_newline_concat(super::HOST_ALIAS@, " ssh-proxy %p"@);
    lemma_rendered_block_is_managed(identity_file, spec_proxy_command(), null_known_hosts);
    lemma_upsert_config_idempotent(conf, block);
}

/// `s` holds no carriage return.
pub open spec fn no_cr(s: Seq<char>) -> bool {
    forall|i: int| 0 <= i < s.len() ==> s[i] != '\r'
}

/// The lines of text without carriage returns hold none.
proof fn lemma_lines_no_cr(t: Seq<char>, cur: Seq<char>)
    requires
        no_cr(t),
        no_cr(cur),
    ensures
        forall|j: int| 0 <= j < lines_from(t, cur).len() ==> no_cr(#[trigger] lines_from(t, cur)[j]),
    decreases t.len(),
{
    if t.len() > 0 {
        let rest = t.drop_first();
        assert forall|i: int| 0 <= i < rest.len() implies rest[i] != '\r' by {
            assert(rest[i] == t[i + 1]);
        }
        if t[0] == '\n' {
            lemma_lines_no_cr(rest, seq![]);
            assert(strip_cr(cur) == cur);
            assert forall|j: int|
                0 <= j < lines_from(t, cur).len() implies no_cr(#[trigger] lines_from(t, cur)[j]) by {
                if j > 0 {
                    assert(lines_from(t, cur)[j] == lines_from(rest, seq![])[j - 1]);
                }
            }
        } else {
            let c = cur.push(t[0]);
            assert forall|i: int| 0 <= i < c.len() implies c[i] != '\r' by {
                if i < cur.len() {
                    assert(c[i] == cur[i]);
                }
            }
            lemma_lines_no_cr(rest, c);
            assert(lines_from(t, cur) == lines_from(rest, c));
        }
    } else {
        assert(lines_from(t, cur).len() == 0 || lines_from(t, cur) == seq![cur]);
    }
}

/// The lines kept by a successful scan of lines without carriage returns
/// hold none.
proof fn lemma_scan_kept_no_cr(ls: Seq<Seq<char>>, inside: bool, found: bool)
    requires
        scan_lines(ls, inside, found) is Ok,
        forall|m: int| 0 <= m < ls.len() ==> no_cr(#[trigger] ls[m]),
    ensures
        forall|j: int|
            0 <= j < scan_lines(ls, inside, found)->Ok_0.0.len() ==> no_cr(
                #[trigger] scan_lines(ls, inside, found)->Ok_0.0[j],
            ),
        forall|j: int|
            0 <= j < scan_lines(ls, inside, found)->Ok_0.1.len() ==> no_cr(
                #[trigger] scan_lines(ls, inside, found)->Ok_0.1[j],
            ),
    decreases ls.len(),
{
    if ls.len() > 0 {
        let l = ls[0];
        let rest = ls.drop_first();
        assert forall|m: int| 0 <= m < rest.len() implies no_cr(#[trigger] rest[m]) by {
            assert(rest[m] == ls[m + 1]);
        }
        if is_begin_line(l) {
            lemma_scan_kept_no_cr(rest, true, found);
        } else if is_end_line(l) {
            lemma_scan_kept_no_cr(rest, false, true);
        } else if inside {
            lemma_scan_kept_no_cr(rest, inside, found);
        } else if is_host_alias_line(l) {
        } else {
            lemma_scan_kept_no_cr(rest, inside, found);
            let (p, q, f) = scan_lines(rest, inside, found)->Ok_0;
            let (p2, q2, f2) = scan_lines(ls, inside, found)->Ok_0;
            assert(no_cr(ls[0]));
            if found {
                assert(p2 == p && q2 == seq![l] + q);
                assert forall|j: int| 0 <= j < q2.len() implies no_cr(#[trigger] q2[j]) by {
                    if j > 0 {
                        assert(q2[j] == q[j - 1]);
                    }
                }
            } else {
                assert(p2 == seq![l] + p && q2 == q);
                assert forall|j: int| 0 <= j < p2.len() implies no_cr(#[trigger] p2[j]) by {
                    if j > 0 {
                        assert(p2[j] == p[j - 1]);
                    }
                }
            }
        }
    }
}

/// Lines without carriage returns, joined by line endings, hold none.
proof fn lemma_join_no_cr(parts: Seq<Seq<char>>)
    requires
        forall|j: int| 0 <= j < parts.len() ==> no_cr(#[trigger] parts[j]),
    ensures
        no_cr(join(parts, seq!['\n'])),
    decreases parts.len(),
{
    if parts.len() > 1 {
        let rest = parts.drop_first();
        assert forall|j: int| 0 <= j < rest.len() implies no_cr(#[trigger] rest[j]) by {
            assert(rest[j] == parts[j + 1]);
        }
        lemma_join_no_cr(rest);
        let x = parts[0];
        let y = join(rest, seq!['\n']);
        assert(no_cr(x));
        let z = x + seq!['\n'] + y;
        assert forall|i: int| 0 <= i < z.len() implies z[i] != '\r' by {
            if i < x.len() {
                assert(z[i] == x[i]);
            } else if i > x.len() {
                assert(z[i] == y[i - x.len() - 1]);
            }
        }
    } else if parts.len() == 1 {
        assert(no_cr(parts[0]));
    }
}

/// A config without any carriage return keeps what stands around its
/// managed block clean, so writing the block twice changes nothing.
pub proof fn lemma_no_cr_config_is_clean(conf: Seq<char>)
    requires
        no_cr(conf),
    ensures
        kept_lines_clean(conf),
{
    lemma_lines_no_cr(conf, seq![]);
    if scan_lines(lines(conf), false, false) is Ok {
        lemma_scan_kept_no_cr(lines(conf), false, false);
        let (pre, post, found) = scan_lines(lines(conf), false, false)->Ok_0;
        assert forall|j: int| 0 <= j < pre.len() implies no_cr(#[trigger] pre[j]) by {}
        lemma_join_no_cr(pre);
        let jk = join(pre, seq!['\n']);
        lemma_trim_end_shape(jk);
        let kb = kept_body(pre);
        assert forall|i: int| 0 <= i < kb.len() implies kb[i] != '\r' by {
            assert(kb[i] == jk[i]);
        }
        if contains(kb, seq!['\r', '\n']) {
            let i = choose|i: int| occurs_at(kb, seq!['\r', '\n'], i);
            assert(kb.subrange(i, i + 2)[0] == kb[i]);
            assert(false);
        }
        assert forall|j: int| 0 <= j < post.len() implies !ends_cr(#[trigger] post[j]) by {
            assert(no_cr(post[j]));
            if post[j].len() > 0 {
                assert(post[j].last() == post[j][post[j].len() - 1]);
            }
        }
    }
}

} // verus!
