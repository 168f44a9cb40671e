//! Character-level string specifications and the verified helpers built on them.

use vstd::prelude::*;

verus! {

broadcast use vstd::string::group_string_axioms;

/// `char::is_whitespace`: the Unicode `White_Space` property.
pub open spec fn is_ws(c: char) -> bool {
    ||| c == '\t' || c == '\n' || c == '\u{0B}' || c == '\u{0C}' || c == '\r' || c == ' '
    ||| c == '\u{85}' || c == '\u{A0}' || c == '\u{1680}'
    ||| ('\u{2000}' <= c && c <= '\u{200A}')
    ||| c == '\u{2028}' || c == '\u{2029}' || c == '\u{202F}' || c == '\u{205F}' || c == '\u{3000}'
}

/// Returns whether `c` is Unicode whitespace.
pub fn char_is_ws(c: char) -> (r: bool)
    ensures
        r == is_ws(c),
{
    c == '\t' || c == '\n' || c == '\u{0B}' || c == '\u{0C}' || c == '\r' || c == ' ' || c
        == '\u{85}' || c == '\u{A0}' || c == '\u{1680}' || ('\u{2000}' <= c && c <= '\u{200A}')
        || c == '\u{2028}' || c == '\u{2029}' || c == '\u{202F}' || c == '\u{205F}' || c
        == '\u{3000}'
}

/// Every character of `s` is whitespace.
pub open spec fn all_ws(s: Seq<char>) -> bool {
    forall|i: int| 0 <= i < s.len() ==> #[trigger] is_ws(s[i])
}

/// `str::trim_end`.
pub open spec fn trim_end(s: Seq<char>) -> Seq<char>
    decreases s.len(),
{
    if s.len() > 0 && is_ws(s.last()) {
        trim_end(s.drop_last())
    } else {
        s
    }
}

/// `str::trim_start`.
pub open spec fn trim_start(s: Seq<char>) -> Seq<char>
    decreases s.len(),
{
    if s.len() > 0 && is_ws(s[0]) {
        trim_start(s.drop_first())
    } else {
        s
    }
}

/// `str::trim`.
pub open spec fn trim(s: Seq<char>) -> Seq<char> {
    trim_start(trim_end(s))
}

/// The characters of `s`, in order.
pub fn chars_of(s: &str) -> (v: Vec<char>)
    ensures
        v@ == s@,
{
    let mut v: Vec<char> = Vec::new();
    for c in it: s.chars()
        invariant
            it.seq() == s@,
            v@ == it.seq().take(it.index() as int),
    {
        v.push(c);
    }
    v
}


/// The character-sequence views of a sequence of strings.
pub open spec fn views(v: Seq<String>) -> Seq<Seq<char>> {
    v.map_values(|x: String| x@)
}

/// `String::push`: appends `c` to the end of `s`.
#[verifier::external_body]
pub(crate) fn push_char(s: &mut String, c: char)
    ensures
        final(s)@ == old(s)@.push(c),
{
    s.push(c);
}

/// A new string holding `v[lo..hi]`.
pub fn string_from(v: &Vec<char>, lo: usize, hi: usize) -> (r: String)
    requires
        lo <= hi <= v@.len(),
    ensures
        r@ == v@.subrange(lo as int, hi as int),
{
    let mut r = String::new();
    let mut i = lo;
    while i < hi
        invariant
            lo <= i <= hi <= v@.len(),
            r@ == v@.subrange(lo as int, i as int),
        decreases hi - i,
    {
        push_char(&mut r, v[i]);
        i = i + 1;
        assert(r@ =~= v@.subrange(lo as int, i as int));
    }
    r
}

/// Removing trailing whitespace from a prefix whose remainder is all whitespace
/// gives the same result as from the whole sequence.
pub proof fn lemma_trim_end_ws_suffix(s: Seq<char>, w: Seq<char>)
    requires
        all_ws(w),
    ensures
        trim_end(s + w) == trim_end(s),
    decreases w.len(),
{
    if w.len() > 0 {
        assert((s + w).drop_last() =~= s + w.drop_last());
        lemma_trim_end_ws_suffix(s, w.drop_last());
    } else {
        assert(s + w =~= s);
    }
}

/// `trim_end` keeps a prefix and drops only whitespace.
pub proof fn lemma_trim_end_shape(s: Seq<char>)
    ensures
        trim_end(s).len() <= s.len(),
        trim_end(s) =~= s.take(trim_end(s).len() as int),
        all_ws(s.skip(trim_end(s).len() as int)),
        trim_end(s).len() == 0 || !is_ws(trim_end(s).last()),
    decreases s.len(),
{
    if s.len() > 0 && is_ws(s.last()) {
        lemma_trim_end_shape(s.drop_last());
        let k = trim_end(s).len() as int;
        assert(s.drop_last().take(k) =~= s.take(k));
        assert forall|i: int| 0 <= i < s.skip(k).len() implies #[trigger] is_ws(s.skip(k)[i]) by {
            if i < s.skip(k).len() - 1 {
                assert(s.skip(k)[i] == s.drop_last().skip(k)[i]);
            }
        }
    }
}

/// `trim_start` keeps a suffix and drops only whitespace.
pub proof fn lemma_trim_start_shape(s: Seq<char>)
    ensures
        trim_start(s).len() <= s.len(),
        trim_start(s) =~= s.skip(s.len() - trim_start(s).len()),
        all_ws(s.take(s.len() - trim_start(s).len())),
        trim_start(s).len() == 0 || !is_ws(trim_start(s)[0]),
    decreases s.len(),
{
    if s.len() > 0 && is_ws(s[0]) {
        lemma_trim_start_shape(s.drop_first());
        let k = s.len() - trim_start(s).len();
        assert(s.drop_first().skip(k - 1) =~= s.skip(k));
        assert forall|i: int| 0 <= i < s.take(k).len() implies #[trigger] is_ws(s.take(k)[i]) by {
            if i > 0 {
                assert(s.take(k)[i] == s.drop_first().take(k - 1)[i - 1]);
            }
        }
    }
}

/// The bounds `lo..hi` of `v` that `str::trim` keeps, and of `str::trim_end` (`0..hi`).
pub fn trim_bounds(v: &Vec<char>) -> (r: (usize, usize))
    ensures
        r.0 <= r.1 <= v@.len(),
        v@.subrange(r.0 as int, r.1 as int) == trim(v@),
        v@.take(r.1 as int) == trim_end(v@),
{
    let mut hi = v.len();
    assert(v@.take(hi as int) =~= v@);
    while hi > 0 && char_is_ws(v[hi - 1])
        invariant
            hi <= v@.len(),
            trim_end(v@) == trim_end(v@.take(hi as int)),
        decreases hi,
    {
        assert(v@.take(hi as int).drop_last() =~= v@.take(hi - 1));
        hi = hi - 1;
    }
    assert(trim_end(v@.take(hi as int)) == v@.take(hi as int));
    let mut lo: usize = 0;
    while lo < hi && char_is_ws(v[lo])
        invariant
            lo <= hi <= v@.len(),
            trim(v@) == trim_start(v@.subrange(lo as int, hi as int)),
        decreases hi - lo,
    {
        assert(v@.subrange(lo as int, hi as int).drop_first() =~= v@.subrange(lo + 1, hi as int));
        lo = lo + 1;
    }
    (lo, hi)
}

/// `str::trim` as a new string.
pub fn trim_str(s: &str) -> (r: String)
    ensures
        r@ == trim(s@),
{
    let v = chars_of(s);
    let (lo, hi) = trim_bounds(&v);
    string_from(&v, lo, hi)
}

/// `str::trim_end` as a new string.
pub fn trim_end_str(s: &str) -> (r: String)
    ensures
        r@ == trim_end(s@),
{
    let v = chars_of(s);
    let (_lo, hi) = trim_bounds(&v);
    string_from(&v, 0, hi)
}


/// The line of a `\n`-terminated piece: one trailing `\r` is dropped.
pub open spec fn strip_cr(l: Seq<char>) -> Seq<char> {
    if l.len() > 0 && l.last() == '\r' {
        l.drop_last()
    } else {
        l
    }
}

/// `str::lines` of `t`, given that `cur` is the unterminated line read so far.
pub open spec fn lines_from(t: Seq<char>, cur: Seq<char>) -> Seq<Seq<char>>
    decreases t.len(),
{
    if t.len() == 0 {
        if cur.len() == 0 {
            seq![]
        } else {
            seq![cur]
        }
    } else if t[0] == '\n' {
        seq![strip_cr(cur)] + lines_from(t.drop_first(), seq![])
    } else {
        lines_from(t.drop_first(), cur.push(t[0]))
    }
}

/// `str::lines`: pieces split at `\n` (a `\r` before it is dropped too), with no
/// empty piece after a final line ending.
pub open spec fn lines(s: Seq<char>) -> Seq<Seq<char>> {
    lines_from(s, seq![])
}

/// `str::split_whitespace` of `t`, given that `cur` is the word read so far.
pub open spec fn words_from(t: Seq<char>, cur: Seq<char>) -> Seq<Seq<char>>
    decreases t.len(),
{
    if t.len() == 0 {
        if cur.len() == 0 {
            seq![]
        } else {
            seq![cur]
        }
    } else if is_ws(t[0]) {
        (if cur.len() == 0 {
            seq![]
        } else {
            seq![cur]
        }) + words_from(t.drop_first(), seq![])
    } else {
        words_from(t.drop_first(), cur.push(t[0]))
    }
}

/// `str::split_whitespace`: the maximal runs of non-whitespace characters.
pub open spec fn words(s: Seq<char>) -> Seq<Seq<char>> {
    words_from(s, seq![])
}

/// `[T]::join`: the parts with `sep` between each two neighbours.
pub open spec fn join(parts: Seq<Seq<char>>, sep: Seq<char>) -> Seq<char>
    decreases parts.len(),
{
    if parts.len() == 0 {
        seq![]
    } else if parts.len() == 1 {
        parts[0]
    } else {
        parts[0] + sep + join(parts.drop_first(), sep)
    }
}

/// Appending a part appends the separator and the part.
pub proof fn lemma_join_push(parts: Seq<Seq<char>>, sep: Seq<char>, x: Seq<char>)
    requires
        parts.len() > 0,
    ensures
        join(parts.push(x), sep) == join(parts, sep) + sep + x,
    decreases parts.len(),
{
    if parts.len() == 1 {
        assert(parts.push(x).drop_first() =~= seq![x]);
        assert(join(seq![x], sep) == x);
    } else {
        lemma_join_push(parts.drop_first(), sep, x);
        assert(parts.push(x).drop_first() =~= parts.drop_first().push(x));
        assert(parts.push(x)[0] == parts[0]);
        let j = join(parts.drop_first(), sep);
        assert(parts[0] + sep + (j + sep + x) =~= (parts[0] + sep + j) + sep + x);
    }
}

/// The lines of `s`, as new strings.
pub fn lines_of(s: &str) -> (r: Vec<String>)
    ensures
        views(r@) == lines(s@),
{
    let v = chars_of(s);
    let n = v.len();
    let mut out: Vec<String> = Vec::new();
    let mut st: usize = 0;
    let mut i: usize = 0;
    assert(v@.skip(0) =~= v@);
    assert(v@.subrange(0, 0) =~= Seq::<char>::empty());
    assert(views(out@) =~= Seq::<Seq<char>>::empty());
    while i < n
        invariant
            n == v@.len(),
            st <= i <= n,
            lines(s@) == views(out@) + lines_from(v@.skip(i as int), v@.subrange(st as int, i as int)),
        decreases n - i,
    {
        let ghost before = views(out@);
        assert(v@.skip(i as int).drop_first() =~= v@.skip(i + 1));
        if v[i] == '\n' {
            let hi = if i > st && v[i - 1] == '\r' {
                i - 1
            } else {
                i
            };
            assert(v@.subrange(st as int, hi as int) =~= strip_cr(v@.subrange(st as int, i as int)));
            let line = string_from(&v, st, hi);
            out.push(line);
            assert(views(out@) =~= before.push(strip_cr(v@.subrange(st as int, i as int))));
            i = i + 1;
            st = i;
            assert(v@.subrange(st as int, i as int) =~= Seq::<char>::empty());
        } else {
            assert(v@.subrange(st as int, i + 1) =~= v@.subrange(st as int, i as int).push(v@[i as int]));
            i = i + 1;
        }
    }
    if st < n {
        let ghost before = views(out@);
        let line = string_from(&v, st, n);
        out.push(line);
        assert(views(out@) =~= before.push(v@.subrange(st as int, n as int)));
    }
    out
}

/// The whitespace-separated words of `s`, as new strings.
pub fn words_of(s: &str) -> (r: Vec<String>)
    ensures
        views(r@) == words(s@),
{
    let v = chars_of(s);
    let n = v.len();
    let mut out: Vec<String> = Vec::new();
    let mut st: usize = 0;
    let mut i: usize = 0;
    assert(v@.skip(0) =~= v@);
    assert(v@.subrange(0, 0) =~= Seq::<char>::empty());
    assert(views(out@) =~= Seq::<Seq<char>>::empty());
    while i < n
        invariant
            n == v@.len(),
            st <= i <= n,
            words(s@) == views(out@) + words_from(v@.skip(i as int), v@.subrange(st as int, i as int)),
        decreases n - i,
    {
        let ghost before = views(out@);
        assert(v@.skip(i as int).drop_first() =~= v@.skip(i + 1));
        if char_is_ws(v[i]) {
            if i > st {
                let word = string_from(&v, st, i);
                out.push(word);
                assert(views(out@) =~= before.push(v@.subrange(st as int, i as int)));
            } else {
                assert(before + Seq::<Seq<char>>::empty() =~= before);
            }
            i = i + 1;
            st = i;
            assert(v@.subrange(st as int, i as int) =~= Seq::<char>::empty());
        } else {
            assert(v@.subrange(st as int, i + 1) =~= v@.subrange(st as int, i as int).push(v@[i as int]));
            i = i + 1;
        }
    }
    if st < n {
        let ghost before = views(out@);
        let word = string_from(&v, st, n);
        out.push(word);
        assert(views(out@) =~= before.push(v@.subrange(st as int, n as int)));
    } else {
        assert(views(out@) + Seq::<Seq<char>>::empty() =~= views(out@));
    }
    out
}

/// The parts joined with `sep`, as a new string.
pub fn join_strs(parts: &Vec<String>, sep: &str) -> (r: String)
    ensures
        r@ == join(views(parts@), sep@),
{
    let mut r = String::new();
    let n = parts.len();
    let mut i: usize = 0;
    while i < n
        invariant
            n == parts@.len(),
            i <= n,
            r@ == join(views(parts@).take(i as int), sep@),
        decreases n - i,
    {
        let ghost prefix = views(parts@).take(i as int);
        if i > 0 {
            r.append(sep);
            proof {
                lemma_join_push(prefix, sep@, parts@[i as int]@);
            }
        }
        r.append(parts[i].as_str());
        assert(views(parts@).take(i + 1) =~= prefix.push(parts@[i as int]@));
        i = i + 1;
    }
    assert(views(parts@).take(n as int) =~= views(parts@));
    r
}


/// `needle` occurs in `hay` starting at index `i`.
pub open spec fn occurs_at(hay: Seq<char>, needle: Seq<char>, i: int) -> bool {
    0 <= i && i + needle.len() <= hay.len() && hay.subrange(i, i + needle.len()) == needle
}

/// `str::contains` with a string pattern.
pub open spec fn contains(hay: Seq<char>, needle: Seq<char>) -> bool {
    exists|i: int| occurs_at(hay, needle, i)
}

/// Whether `needle` occurs in `hay`.
pub fn contains_chars(hay: &Vec<char>, needle: &Vec<char>) -> (r: bool)
    ensures
        r == contains(hay@, needle@),
{
    let n = hay.len();
    let m = needle.len();
    if m > n {
        assert forall|i: int| !occurs_at(hay@, needle@, i) by {}
        return false;
    }
    let mut i: usize = 0;
    while i <= n - m
        invariant
            n == hay@.len(),
            m == needle@.len(),
            m <= n,
            i <= n - m + 1,
            forall|k: int| 0 <= k < i ==> !occurs_at(hay@, needle@, k),
        decreases n - m + 1 - i,
    {
        let mut j: usize = 0;
        let mut same = true;
        while j < m
            invariant
                n == hay@.len(),
                m == needle@.len(),
                i + m <= n,
                j <= m,
                same == (forall|k: int| 0 <= k < j ==> hay@[i + k] == needle@[k]),
            decreases m - j,
        {
            if hay[i + j] != needle[j] {
                same = false;
            }
            j = j + 1;
        }
        if same {
            assert(hay@.subrange(i as int, i + m) =~= needle@);
            assert(occurs_at(hay@, needle@, i as int));
            return true;
        }
        assert(!occurs_at(hay@, needle@, i as int)) by {
            if hay@.subrange(i as int, i + m) == needle@ {
                assert forall|k: int| 0 <= k < m implies hay@[i + k] == needle@[k] by {
                    assert(hay@.subrange(i as int, i + m)[k] == hay@[i + k]);
                }
            }
        }
        i = i + 1;
    }
    false
}

/// `char::to_ascii_lowercase`.
pub open spec fn ascii_lower(c: char) -> char {
    if 'A' <= c && c <= 'Z' {
        ((c as u32) + 32) as char
    } else {
        c
    }
}

/// `str::to_ascii_lowercase`.
pub open spec fn lower_all(s: Seq<char>) -> Seq<char> {
    s.map_values(|c: char| ascii_lower(c))
}

/// The ASCII lowercase of `c`.
pub fn char_ascii_lower(c: char) -> (r: char)
    ensures
        r == ascii_lower(c),
{
    if 'A' <= c && c <= 'Z' {
        let b = (c as u8) + 32;
        b as char
    } else {
        c
    }
}

/// The ASCII lowercase of each character of `v`.
pub fn lower_chars(v: &Vec<char>) -> (r: Vec<char>)
    ensures
        r@ == lower_all(v@),
{
    let mut r: Vec<char> = Vec::new();
    let n = v.len();
    let mut i: usize = 0;
    while i < n
        invariant
            n == v@.len(),
            i <= n,
            r@ == lower_all(v@.take(i as int)),
        decreases n - i,
    {
        r.push(char_ascii_lower(v[i]));
        i = i + 1;
        assert(r@ =~= lower_all(v@.take(i as int)));
    }
    assert(v@.take(n as int) =~= v@);
    r
}

/// The decimal digit for `d < 10`.
pub open spec fn digit(d: nat) -> char {
    ((d + 48) as u32) as char
}

/// The decimal representation of `n`, without leading zeros.
pub open spec fn decimal(n: nat) -> Seq<char>
    decreases n,
{
    if n < 10 {
        seq![digit(n)]
    } else {
        decimal(n / 10).push(digit(n % 10))
    }
}

/// The decimal representation of `n`, as a string.
pub fn decimal_string(n: u128) -> (r: String)
    ensures
        r@ == decimal(n as nat),
    decreases n,
{
    let d = (n % 10) as u8;
    let c = (d + 48) as char;
    if n < 10 {
        let mut r = String::new();
        push_char(&mut r, c);
        assert(r@ =~= seq![digit(n as nat)]);
        r
    } else {
        let mut r = decimal_string(n / 10);
        push_char(&mut r, c);
        r
    }
}


/// Whether `a` and `b` hold the same characters.
pub fn chars_eq(a: &Vec<char>, b: &Vec<char>) -> (r: bool)
    ensures
        r == (a@ == b@),
{
    if a.len() != b.len() {
        return false;
    }
    let n = a.len();
    let mut i: usize = 0;
    while i < n
        invariant
            n == a@.len() == b@.len(),
            i <= n,
            forall|k: int| 0 <= k < i ==> a@[k] == b@[k],
        decreases n - i,
    {
        if a[i] != b[i] {
            return false;
        }
        i = i + 1;
    }
    assert(a@ =~= b@);
    true
}

/// Whether `a` and `b` hold the same characters.
pub fn str_eq(a: &str, b: &str) -> (r: bool)
    ensures
        r == (a@ == b@),
{
    chars_eq(&chars_of(a), &chars_of(b))
}

/// `str::eq_ignore_ascii_case`.
pub open spec fn eq_ignore_ascii_case(a: Seq<char>, b: Seq<char>) -> bool {
    lower_all(a) == lower_all(b)
}

/// Whether `a` and `b` are equal up to ASCII case.
pub fn str_eq_ignore_ascii_case(a: &str, b: &str) -> (r: bool)
    ensures
        r == eq_ignore_ascii_case(a@, b@),
{
    chars_eq(&lower_chars(&chars_of(a)), &lower_chars(&chars_of(b)))
}


/// `s` with every `c` replaced by `r` (`str::replace` with a `char` pattern).
pub open spec fn replace_char(s: Seq<char>, c: char, r: Seq<char>) -> Seq<char>
    decreases s.len(),
{
    if s.len() == 0 {
        seq![]
    } else {
        replace_char(s.drop_last(), c, r) + (if s.last() == c {
            r
        } else {
            seq![s.last()]
        })
    }
}

/// `s` with every `c` replaced by `r`, as a new string.
pub fn replace_char_str(s: &str, c: char, r: &str) -> (out: String)
    ensures
        out@ == replace_char(s@, c, r@),
{
    let v = chars_of(s);
    let n = v.len();
    let mut out = String::new();
    let mut i: usize = 0;
    assert(v@.take(0) =~= Seq::<char>::empty());
    while i < n
        invariant
            n == v@.len(),
            i <= n,
            out@ == replace_char(v@.take(i as int), c, r@),
        decreases n - i,
    {
        assert(v@.take(i + 1).drop_last() =~= v@.take(i as int));
        if v[i] == c {
            out.append(r);
        } else {
            push_char(&mut out, v[i]);
        }
        i = i + 1;
    }
    assert(v@.take(n as int) =~= v@);
    out
}


/// The decimal representation of the integer `n`, with a leading `-` when
/// negative.
pub open spec fn signed_decimal(n: int) -> Seq<char> {
    if n < 0 {
        seq!['-'] + decimal((-n) as nat)
    } else {
        decimal(n as nat)
    }
}

/// The decimal representation of `n`, as a string.
pub fn signed_decimal_string(n: i64) -> (r: String)
    ensures
        r@ == signed_decimal(n as int),
{
    if n < 0 {
        let mut r = String::new();
        push_char(&mut r, '-');
        let magnitude = (0i128 - (n as i128)) as u128;
        let digits = decimal_string(magnitude);
        r.append(digits.as_str());
        assert(r@ =~= seq!['-'] + decimal((-n) as nat));
        r
    } else {
        decimal_string(n as u128)
    }
}


/// Trimmed text neither starts nor ends with whitespace, so trimming it again
/// changes nothing.
pub proof fn lemma_trim_idempotent(x: Seq<char>)
    ensures
        trim(trim(x)) == trim(x),
        trim(x).len() > 0 ==> !is_ws(trim(x)[0]) && !is_ws(trim(x).last()),
{
    let e = trim_end(x);
    lemma_trim_end_shape(x);
    lemma_trim_start_shape(e);
    let t = trim_start(e);
    if t.len() > 0 {
        assert(t.last() == e.last());
        assert(trim_end(t) == t);
        assert(trim_start(t) == t);
    } else {
        assert(trim_end(t) == t);
    }
}

/// The number that the digits `s` write, read left to right in base 10.
pub open spec fn read_decimal(s: Seq<char>) -> int
    decreases s.len(),
{
    if s.len() == 0 {
        0
    } else {
        read_decimal(s.drop_last()) * 10 + (s.last() as int - '0' as int)
    }
}

/// The decimal form of `n` is one or more ASCII digits, the first of them not
/// `0` unless `n` is zero, and it reads back as `n`.
pub proof fn lemma_decimal_reads_back(n: nat)
    ensures
        decimal(n).len() > 0,
        forall|i: int| 0 <= i < decimal(n).len() ==> '0' <= #[trigger] decimal(n)[i] <= '9',
        n != 0 ==> decimal(n)[0] != '0',
        read_decimal(decimal(n)) == n,
    decreases n,
{
    if n < 10 {
        let d = decimal(n);
        assert(d == seq![digit(n)]);
        assert(digit(n) as int == n + 48);
        assert(d.drop_last() =~= Seq::<char>::empty());
        assert(read_decimal(d) == read_decimal(d.drop_last()) * 10 + n);
    } else {
        lemma_decimal_reads_back(n / 10);
        let p = decimal(n / 10);
        let d = decimal(n);
        assert(d == p.push(digit(n % 10)));
        assert(digit(n % 10) as int == n % 10 + 48);
        assert(d.drop_last() =~= p);
        assert(d.last() == digit(n % 10));
        assert(read_decimal(d) == read_decimal(p) * 10 + (n % 10) as int);
        assert((n / 10) * 10 + n % 10 == n);
        assert(d[0] == p[0]);
        assert forall|i: int| 0 <= i < d.len() implies '0' <= #[trigger] d[i] <= '9' by {
            if i < p.len() {
                assert(d[i] == p[i]);
            }
        }
    }
}

/// The signed decimal form of `n` is `-` before the digits of `-n` when `n` is
/// negative, otherwise just the digits of `n`; the digits read back as `|n|`.
pub proof fn lemma_signed_decimal_reads_back(n: int)
    ensures
        n >= 0 ==> signed_decimal(n) == decimal(n as nat) && read_decimal(signed_decimal(n)) == n,
        n < 0 ==> signed_decimal(n)[0] == '-' && read_decimal(signed_decimal(n).drop_first())
            == -n,
{
    if n >= 0 {
        lemma_decimal_reads_back(n as nat);
    } else {
        lemma_decimal_reads_back((-n) as nat);
        assert(signed_decimal(n).drop_first() =~= decimal((-n) as nat));
    }
}

} // verus!
