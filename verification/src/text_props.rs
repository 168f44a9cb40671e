//! Properties of the string specifications used by the SSH-config laws.

use vstd::prelude::*;

use crate::text::{
    all_ws, contains, is_ws, join, lemma_trim_end_ws_suffix, lines, lines_from, occurs_at,
    strip_cr, trim, trim_end, words_from,
};

verus! {

/// Pieces of `t` split at every `\n`, given that `cur` was read before `t`.
pub open spec fn split_from(t: Seq<char>, cur: Seq<char>) -> Seq<Seq<char>>
    decreases t.len(),
{
    if t.len() == 0 {
        seq![cur]
    } else if t[0] == '\n' {
        seq![cur] + split_from(t.drop_first(), seq![])
    } else {
        split_from(t.drop_first(), cur.push(t[0]))
    }
}

/// `l` ends with a carriage return.
pub open spec fn ends_cr(l: Seq<char>) -> bool {
    l.len() > 0 && l.last() == '\r'
}

/// `s` holds no `\n`.
pub open spec fn no_newline(s: Seq<char>) -> bool {
    forall|i: int| 0 <= i < s.len() ==> s[i] != '\n'
}

/// Splitting yields at least one piece.
pub proof fn lemma_split_nonempty(t: Seq<char>, cur: Seq<char>)
    ensures
        split_from(t, cur).len() >= 1,
    decreases t.len(),
{
    if t.len() > 0 {
        if t[0] == '\n' {
            lemma_split_nonempty(t.drop_first(), seq![]);
        } else {
            lemma_split_nonempty(t.drop_first(), cur.push(t[0]));
        }
    }
}

/// Text without a newline only extends the current piece.
pub proof fn lemma_split_no_newline(x: Seq<char>, r: Seq<char>, cur: Seq<char>)
    requires
        no_newline(x),
    ensures
        split_from(x + r, cur) == split_from(r, cur + x),
    decreases x.len(),
{
    if x.len() == 0 {
        assert(x + r =~= r);
        assert(cur + x =~= cur);
    } else {
        assert((x + r).drop_first() =~= x.drop_first() + r);
        assert((x + r)[0] == x[0]);
        assert(cur.push(x[0]) + x.drop_first() =~= cur + x);
        lemma_split_no_newline(x.drop_first(), r, cur.push(x[0]));
    }
}

/// Joining the pieces with `\n` gives back the text.
pub proof fn lemma_join_split(x: Seq<char>, cur: Seq<char>)
    ensures
        join(split_from(x, cur), seq!['\n']) == cur + x,
    decreases x.len(),
{
    if x.len() == 0 {
        assert(cur + x =~= cur);
    } else if x[0] == '\n' {
        lemma_join_split(x.drop_first(), seq![]);
        lemma_split_nonempty(x.drop_first(), seq![]);
        let ps = seq![cur] + split_from(x.drop_first(), seq![]);
        assert(ps.drop_first() =~= split_from(x.drop_first(), seq![]));
        assert(cur + seq!['\n'] + (Seq::<char>::empty() + x.drop_first()) =~= cur + x);
    } else {
        lemma_join_split(x.drop_first(), cur.push(x[0]));
        assert(cur.push(x[0]) + x.drop_first() =~= cur + x);
    }
}

/// Splitting lines joined with `\n` gives the lines back.
pub proof fn lemma_split_join(k: Seq<Seq<char>>)
    requires
        k.len() >= 1,
        forall|j: int| 0 <= j < k.len() ==> no_newline(#[trigger] k[j]),
    ensures
        split_from(join(k, seq!['\n']), seq![]) == k,
    decreases k.len(),
{
    if k.len() == 1 {
        lemma_split_no_newline(k[0], seq![], seq![]);
        assert(k[0] + Seq::<char>::empty() =~= k[0]);
        assert(Seq::<char>::empty() + k[0] =~= k[0]);
        assert(seq![k[0]] =~= k);
    } else {
        let rest = k.drop_first();
        assert forall|j: int| 0 <= j < rest.len() implies no_newline(#[trigger] rest[j]) by {
            assert(rest[j] == k[j + 1]);
        }
        lemma_split_join(rest);
        let jr = join(rest, seq!['\n']);
        assert(k[0] + seq!['\n'] + jr =~= k[0] + (seq!['\n'] + jr));
        lemma_split_no_newline(k[0], seq!['\n'] + jr, seq![]);
        assert(Seq::<char>::empty() + k[0] =~= k[0]);
        assert((seq!['\n'] + jr).drop_first() =~= jr);
        assert(seq![k[0]] + rest =~= k);
    }
}

/// A line ending followed by more text: the lines are the pieces before it,
/// then the lines of the rest, when no piece ends with a carriage return.
pub proof fn lemma_lines_concat(x: Seq<char>, r: Seq<char>, cur: Seq<char>)
    requires
        forall|j: int|
            0 <= j < split_from(x, cur).len() ==> !ends_cr(#[trigger] split_from(x, cur)[j]),
    ensures
        lines_from(x + seq!['\n'] + r, cur) == split_from(x, cur) + lines_from(r, seq![]),
    decreases x.len(),
{
    let t = x + seq!['\n'] + r;
    if x.len() == 0 {
        assert(t.drop_first() =~= r);
        assert(t[0] == '\n');
        assert(split_from(x, cur)[0] == cur);
        assert(strip_cr(cur) == cur);
    } else {
        assert(t[0] == x[0]);
        assert(t.drop_first() =~= x.drop_first() + seq!['\n'] + r);
        if x[0] == '\n' {
            let ps = split_from(x.drop_first(), seq![]);
            assert(split_from(x, cur) == seq![cur] + ps);
            assert(split_from(x, cur)[0] == cur);
            assert forall|j: int| 0 <= j < ps.len() implies !ends_cr(#[trigger] ps[j]) by {
                assert(ps[j] == split_from(x, cur)[j + 1]);
            }
            lemma_lines_concat(x.drop_first(), r, seq![]);
            assert(seq![cur] + (ps + lines_from(r, seq![])) =~= seq![cur] + ps + lines_from(r, seq![]));
        } else {
            assert(split_from(x, cur) == split_from(x.drop_first(), cur.push(x[0])));
            lemma_lines_concat(x.drop_first(), r, cur.push(x[0]));
        }
    }
}

/// Pieces of a text with no `\r\n` and no final `\r` do not end with `\r`.
pub proof fn lemma_split_no_cr(x: Seq<char>, cur: Seq<char>)
    requires
        !contains(cur + x, seq!['\r', '\n']),
        !ends_cr(cur + x),
    ensures
        forall|j: int|
            0 <= j < split_from(x, cur).len() ==> !ends_cr(#[trigger] split_from(x, cur)[j]),
    decreases x.len(),
{
    if x.len() == 0 {
        assert(cur + x =~= cur);
        assert(split_from(x, cur) == seq![cur]);
    } else if x[0] == '\n' {
        if ends_cr(cur) {
            let i = cur.len() - 1;
            assert((cur + x).subrange(i, i + 2) =~= seq!['\r', '\n']);
            assert(occurs_at(cur + x, seq!['\r', '\n'], i));
        }
        let xr = x.drop_first();
        assert(Seq::<char>::empty() + xr =~= xr);
        if contains(xr, seq!['\r', '\n']) {
            let i = choose|i: int| occurs_at(xr, seq!['\r', '\n'], i);
            let k = cur.len() + 1 + i;
            assert((cur + x).subrange(k, k + 2) =~= xr.subrange(i, i + 2));
            assert(occurs_at(cur + x, seq!['\r', '\n'], k));
        }
        if ends_cr(xr) {
            assert((cur + x).last() == xr.last());
        }
        lemma_split_no_cr(xr, seq![]);
        let ps = split_from(xr, seq![]);
        assert(split_from(x, cur) == seq![cur] + ps);
        assert forall|j: int| 0 <= j < split_from(x, cur).len() implies !ends_cr(
            #[trigger] split_from(x, cur)[j],
        ) by {
            if j == 0 {
                assert(split_from(x, cur)[0] == cur);
            } else {
                assert(split_from(x, cur)[j] == ps[j - 1]);
            }
        }
    } else {
        assert(cur.push(x[0]) + x.drop_first() =~= cur + x);
        lemma_split_no_cr(x.drop_first(), cur.push(x[0]));
        assert(split_from(x, cur) == split_from(x.drop_first(), cur.push(x[0])));
    }
}

/// Trailing whitespace changes neither the word list nor the trimmed text.
pub proof fn lemma_ws_suffix_words(t: Seq<char>, w: Seq<char>, cur: Seq<char>)
    requires
        all_ws(w),
    ensures
        words_from(t + w, cur) == words_from(t, cur),
    decreases t.len(),
{
    if t.len() == 0 {
        assert(t + w =~= w);
        lemma_ws_only_words(w, cur);
    } else {
        assert((t + w)[0] == t[0]);
        assert((t + w).drop_first() =~= t.drop_first() + w);
        if is_ws(t[0]) {
            lemma_ws_suffix_words(t.drop_first(), w, seq![]);
        } else {
            lemma_ws_suffix_words(t.drop_first(), w, cur.push(t[0]));
        }
    }
}

/// Whitespace alone only ends the current word.
pub proof fn lemma_ws_only_words(w: Seq<char>, cur: Seq<char>)
    requires
        all_ws(w),
    ensures
        words_from(w, cur) == (if cur.len() == 0 {
            Seq::<Seq<char>>::empty()
        } else {
            seq![cur]
        }),
    decreases w.len(),
{
    if w.len() > 0 {
        assert(is_ws(w[0]));
        let rest = w.drop_first();
        assert forall|i: int| 0 <= i < rest.len() implies #[trigger] is_ws(rest[i]) by {
            assert(rest[i] == w[i + 1]);
        }
        lemma_ws_only_words(rest, seq![]);
        if cur.len() == 0 {
            assert(Seq::<Seq<char>>::empty() + Seq::<Seq<char>>::empty() =~= Seq::<Seq<char>>::empty());
        } else {
            assert(seq![cur] + Seq::<Seq<char>>::empty() =~= seq![cur]);
        }
    }
}

/// Trailing whitespace does not change the trimmed text.
pub proof fn lemma_ws_suffix_trim(s: Seq<char>, w: Seq<char>)
    requires
        all_ws(w),
    ensures
        trim(s + w) == trim(s),
{
    lemma_trim_end_ws_suffix(s, w);
}


/// The lines of text joined with `\n` and ended with one, lose only a final
/// carriage return each.
pub proof fn lemma_lines_of_joined(k: Seq<Seq<char>>)
    requires
        k.len() >= 1,
        forall|j: int| 0 <= j < k.len() ==> no_newline(#[trigger] k[j]),
    ensures
        lines(join(k, seq!['\n']) + seq!['\n']) == k.map_values(|l: Seq<char>| strip_cr(l)),
    decreases k.len(),
{
    let nl = seq!['\n'];
    if k.len() == 1 {
        lemma_lines_single(k[0], seq![], seq![]);
        assert(k[0] + nl + Seq::<char>::empty() =~= join(k, nl) + nl);
        assert(Seq::<char>::empty() + k[0] =~= k[0]);
        assert(lines_from(Seq::<char>::empty(), seq![]) =~= Seq::<Seq<char>>::empty());
        assert(k.map_values(|l: Seq<char>| strip_cr(l)) =~= seq![strip_cr(k[0])]);
    } else {
        let rest = k.drop_first();
        assert forall|j: int| 0 <= j < rest.len() implies no_newline(#[trigger] rest[j]) by {
            assert(rest[j] == k[j + 1]);
        }
        lemma_lines_of_joined(rest);
        let jr = join(rest, nl);
        assert(join(k, nl) + nl =~= k[0] + nl + (jr + nl));
        lemma_lines_single(k[0], jr + nl, seq![]);
        assert(Seq::<char>::empty() + k[0] =~= k[0]);
        assert(k.map_values(|l: Seq<char>| strip_cr(l)) =~= seq![strip_cr(k[0])] + rest.map_values(
            |l: Seq<char>| strip_cr(l),
        ));
    }
}

/// One line without a line ending, then a line ending.
pub proof fn lemma_lines_single(x: Seq<char>, r: Seq<char>, cur: Seq<char>)
    requires
        no_newline(x),
    ensures
        lines_from(x + seq!['\n'] + r, cur) == seq![strip_cr(cur + x)] + lines_from(r, seq![]),
    decreases x.len(),
{
    let t = x + seq!['\n'] + r;
    if x.len() == 0 {
        assert(t.drop_first() =~= r);
        assert(t[0] == '\n');
        assert(cur + x =~= cur);
    } else {
        assert(t[0] == x[0]);
        assert(t.drop_first() =~= x.drop_first() + seq!['\n'] + r);
        lemma_lines_single(x.drop_first(), r, cur.push(x[0]));
        assert(cur.push(x[0]) + x.drop_first() =~= cur + x);
    }
}

/// Where leading whitespace ends at `a`, character `b` of `x` (not
/// whitespace) is character `b - a` of the trimmed text.
pub proof fn lemma_trim_char(x: Seq<char>, a: int, b: int)
    requires
        0 <= a <= b < x.len(),
        forall|i: int| 0 <= i < a ==> #[trigger] is_ws(x[i]),
        !is_ws(x[a]),
        !is_ws(x[b]),
    ensures
        trim(x).len() > b - a,
        trim(x)[b - a] == x[b],
{
    crate::text::lemma_trim_end_shape(x);
    let e = trim_end(x);
    let k = e.len();
    assert(k > b) by {
        if k <= b {
            assert(x.skip(k as int)[b - k] == x[b]);
        }
    }
    assert(e =~= x.take(k as int));
    lemma_trim_start_skip(e, a);
}

/// Leading whitespace of length `a` is what `trim_start` drops.
pub proof fn lemma_trim_start_skip(s: Seq<char>, a: int)
    requires
        0 <= a < s.len(),
        forall|i: int| 0 <= i < a ==> #[trigger] is_ws(s[i]),
        !is_ws(s[a]),
    ensures
        crate::text::trim_start(s) == s.skip(a),
    decreases a,
{
    if a == 0 {
        assert(s.skip(0) =~= s);
    } else {
        let t = s.drop_first();
        assert(is_ws(s[0]));
        assert forall|i: int| 0 <= i < a - 1 implies #[trigger] is_ws(t[i]) by {
            assert(t[i] == s[i + 1]);
        }
        lemma_trim_start_skip(t, a - 1);
        assert(t.skip(a - 1) =~= s.skip(a));
    }
}

} // verus!
