//! A hand-written `Host` entry for the alias is refused, wherever the alias
//! stands among the entry's patterns.

use vstd::prelude::*;

use super::config::{
    combine_kept, is_begin_line, is_end_line, is_host_alias_line, scan_lines,
    spec_upsert_config, Kept, SshConfigError, MANAGED_BLOCK_BEGIN, MANAGED_BLOCK_END,
};
use super::HOST_ALIAS;
use crate::text::{
    ascii_lower, eq_ignore_ascii_case, is_ws, lemma_trim_end_shape, lemma_trim_start_shape, lines,
    lower_all, trim, trim_end, words, words_from,
};

verus! {

/// Leading whitespace does not change the words.
proof fn lemma_words_skip_ws(s: Seq<char>, a: int)
    requires
        0 <= a <= s.len(),
        forall|i: int| 0 <= i < a ==> #[trigger] is_ws(s[i]),
    ensures
        words_from(s, seq![]) == words_from(s.skip(a), seq![]),
    decreases a,
{
    if a == 0 {
        assert(s.skip(0) =~= s);
    } else {
        assert(is_ws(s[0]));
        let t = s.drop_first();
        assert forall|i: int| 0 <= i < a - 1 implies #[trigger] is_ws(t[i]) by {
            assert(t[i] == s[i + 1]);
            assert(is_ws(s[i + 1]));
        }
        lemma_words_skip_ws(t, a - 1);
        assert(t.skip(a - 1) =~= s.skip(a));
        assert(Seq::<Seq<char>>::empty() + words_from(t, seq![]) =~= words_from(t, seq![]));
    }
}

/// The first word read on from a word begun with `cur` starts as `cur` does.
proof fn lemma_first_word_start(t: Seq<char>, cur: Seq<char>)
    requires
        cur.len() > 0,
    ensures
        words_from(t, cur).len() > 0,
        words_from(t, cur)[0].len() > 0,
        words_from(t, cur)[0][0] == cur[0],
    decreases t.len(),
{
    if t.len() > 0 && !is_ws(t[0]) {
        lemma_first_word_start(t.drop_first(), cur.push(t[0]));
    }
}

/// A marker line is no `Host` line: its first word starts with `#`.
proof fn lemma_marker_line_not_host(l: Seq<char>)
    requires
        is_begin_line(l) || is_end_line(l),
    ensures
        !is_host_alias_line(l),
{
    reveal_strlit("# >>> awsome managed >>>");
    reveal_strlit("# <<< awsome managed <<<");
    reveal_strlit("Host");
    let e = trim_end(l);
    lemma_trim_end_shape(l);
    lemma_trim_start_shape(e);
    let m = trim(l);
    assert(m == MANAGED_BLOCK_BEGIN@ || m == MANAGED_BLOCK_END@);
    assert(m.len() > 0 && m[0] == '#');
    let a = e.len() - m.len();
    assert(m[0] == e.skip(a)[0]);
    assert(e[a] == '#');
    assert(l[a] == '#');
    assert forall|i: int| 0 <= i < a implies #[trigger] is_ws(l[i]) by {
        assert(e.take(a)[i] == e[i]);
        assert(l[i] == e[i]);
    }
    lemma_words_skip_ws(l, a);
    let u = l.skip(a);
    assert(u[0] == '#');
    let c = Seq::<char>::empty().push(u[0]);
    lemma_first_word_start(u.drop_first(), c);
    assert(words_from(u, seq![]) == words_from(u.drop_first(), c));
    let w0 = words(l)[0];
    assert(w0[0] == '#');
    if eq_ignore_ascii_case(w0, "Host"@) {
        assert(lower_all(w0)[0] == ascii_lower(w0[0]));
        assert(lower_all("Host"@)[0] == ascii_lower('H'));
        assert(false);
    }
}

/// A `Host` line, its keyword in any ASCII case, that lists the alias at any
/// place after the keyword names the alias.
pub proof fn lemma_host_line_names_alias(l: Seq<char>, k: int)
    requires
        1 <= k < words(l).len(),
        eq_ignore_ascii_case(words(l)[0], "Host"@),
        words(l)[k] == HOST_ALIAS@,
    ensures
        is_host_alias_line(l),
{
    assert(words(l).drop_first()[k - 1] == words(l)[k]);
}

/// Reading a part `a` that leaves no block open, then the rest `r`: what `a`
/// keeps in front of what `r` keeps, or the first problem in `r`.
proof fn lemma_scan_split(a: Seq<Seq<char>>, r: Seq<Seq<char>>, inside: bool, found: bool)
    requires
        scan_lines(a, inside, found) is Ok,
    ensures
        ({
            let (p, q, f) = scan_lines(a, inside, found)->Ok_0;
            scan_lines(a + r, inside, found) == combine_kept(p, q, scan_lines(r, false, f))
        }),
    decreases a.len(),
{
    if a.len() == 0 {
        assert(a + r =~= r);
        match scan_lines(r, false, found) {
            Ok((p, q, f)) => {
                assert(Seq::<Seq<char>>::empty() + p =~= p);
                assert(Seq::<Seq<char>>::empty() + q =~= q);
            },
            Err(_) => {},
        }
    } else {
        let l = a[0];
        let rest = a.drop_first();
        assert((a + r)[0] == l);
        assert((a + r).drop_first() =~= rest + r);
        if is_begin_line(l) {
            lemma_scan_split(rest, r, true, found);
        } else if is_end_line(l) {
            lemma_scan_split(rest, r, false, true);
        } else if inside {
            lemma_scan_split(rest, r, inside, found);
        } else if is_host_alias_line(l) {
        } else {
            lemma_scan_split(rest, r, inside, found);
            let (p, q, f) = scan_lines(rest, inside, found)->Ok_0;
            match scan_lines(r, false, f) {
                Ok((p2, q2, f2)) => {
                    assert(seq![l] + (p + p2) =~= (seq![l] + p) + p2);
                    assert(seq![l] + (q + q2) =~= (seq![l] + q) + q2);
                },
                Err(_) => {},
            }
        }
    }
}

/// A hand-written `Host` line that lists the alias at any place among its
/// patterns (keyword in any ASCII case) makes the upsert fail with
/// `ConflictingHost` whenever it stands outside a managed block: the lines
/// before it read without a problem and leave no block open. Where it stands
/// before or after the block, and what follows it, makes no difference.
pub proof fn lemma_hand_written_host_refused(conf: Seq<char>, block: Seq<char>, i: int, k: int)
    requires
        0 <= i < lines(conf).len(),
        scan_lines(lines(conf).take(i), false, false) is Ok,
        1 <= k < words(lines(conf)[i]).len(),
        eq_ignore_ascii_case(words(lines(conf)[i])[0], "Host"@),
        words(lines(conf)[i])[k] == HOST_ALIAS@,
    ensures
        spec_upsert_config(conf, block) == Err::<Seq<char>, SshConfigError>(
            SshConfigError::ConflictingHost,
        ),
{
    let ls = lines(conf);
    let l = ls[i];
    lemma_host_line_names_alias(l, k);
    if is_begin_line(l) || is_end_line(l) {
        lemma_marker_line_not_host(l);
    }
    let r = ls.skip(i);
    assert(ls.take(i) + r =~= ls);
    lemma_scan_split(ls.take(i), r, false, false);
    let (p, q, f) = scan_lines(ls.take(i), false, false)->Ok_0;
    assert(r[0] == l);
    assert(scan_lines(r, false, f) == Err::<Kept, SshConfigError>(SshConfigError::ConflictingHost));
}

} // verus!
