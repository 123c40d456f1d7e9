//! Character-level text operations over the `Seq<char>` view of strings.
use vstd::prelude::*;

verus! {

/// The Unicode `White_Space` property.
pub open spec fn is_ws(c: char) -> bool {
    let n = c as u32;
    ||| 0x09 <= n <= 0x0d
    ||| n == 0x20
    ||| n == 0x85
    ||| n == 0xa0
    ||| n == 0x1680
    ||| 0x2000 <= n <= 0x200a
    ||| n == 0x2028
    ||| n == 0x2029
    ||| n == 0x202f
    ||| n == 0x205f
    ||| n == 0x3000
}

/// Whether `c` is a whitespace character (Unicode `White_Space`).
pub fn is_whitespace(c: char) -> (r: bool)
    ensures
        r == is_ws(c),
        (c as u32) > 0x3000 ==> !r,
        0x21 <= (c as u32) <= 0x7e ==> !r,
        0x0e <= (c as u32) <= 0x1f ==> !r,
        0x2e80 <= (c as u32) <= 0x2fff ==> !r,
{
    let n = c as u32;
    (0x09 <= n && n <= 0x0d) || n == 0x20 || n == 0x85 || n == 0xa0 || n == 0x1680 || (0x2000
        <= n && n <= 0x200a) || n == 0x2028 || n == 0x2029 || n == 0x202f || n == 0x205f || n
        == 0x3000
}

} // verus!

verus! {

/// Appends one character to a string.
#[verifier::external_body]
pub(crate) fn push_char(s: &mut String, c: char)
    ensures
        final(s)@ == old(s)@.push(c),
{
    s.push(c);
}

/// The characters of `s`, in order.
pub fn chars_of(s: &str) -> (v: Vec<char>)
    ensures
        v@ == s@,
{
    let mut v: Vec<char> = Vec::new();
    for c in it: s.chars()
        invariant
            v@ == it.seq().take(it.index() as int),
            it.seq() == s@,
    {
        v.push(c);
    }
    v
}

/// The string made of the characters of `v`, in order.
pub fn string_of(v: &Vec<char>) -> (s: String)
    ensures
        s@ == v@,
{
    let mut s = String::new();
    let n = v.len();
    let mut i: usize = 0;
    while i < n
        invariant
            n == v.len(),
            i <= n,
            s@ == v@.take(i as int),
        decreases n - i,
    {
        push_char(&mut s, v[i]);
        assert(v@.take(i + 1) == v@.take(i as int).push(v@[i as int]));
        i += 1;
    }
    assert(v@.take(n as int) == v@);
    s
}

} // verus!

verus! {

/// `s` without its leading whitespace.
pub open spec fn trim_start(s: Seq<char>) -> Seq<char>
    decreases s.len(),
{
    if s.len() > 0 && is_ws(s[0]) {
        trim_start(s.drop_first())
    } else {
        s
    }
}

/// `s` without its trailing whitespace.
pub open spec fn trim_end(s: Seq<char>) -> Seq<char>
    decreases s.len(),
{
    if s.len() > 0 && is_ws(s.last()) {
        trim_end(s.drop_last())
    } else {
        s
    }
}

/// `s` without its leading and trailing whitespace.
pub open spec fn trim(s: Seq<char>) -> Seq<char> {
    trim_end(trim_start(s))
}

/// Whether `s` holds a whitespace character.
pub open spec fn has_ws(s: Seq<char>) -> bool {
    exists|i: int| 0 <= i < s.len() && is_ws(#[trigger] s[i])
}

/// Whether `s` holds only whitespace (or nothing).
pub open spec fn all_ws(s: Seq<char>) -> bool {
    forall|i: int| 0 <= i < s.len() ==> is_ws(#[trigger] s[i])
}

/// Whether `p` is a prefix of `s`.
pub open spec fn starts_with(s: Seq<char>, p: Seq<char>) -> bool {
    p.len() <= s.len() && s.take(p.len() as int) == p
}

/// The index of the first character of `s` that is not whitespace (or its length).
pub fn trim_start_index(s: &Vec<char>) -> (i: usize)
    ensures
        i <= s.len(),
        trim_start(s@) == s@.skip(i as int),
        forall|j: int| 0 <= j < i ==> is_ws(#[trigger] s@[j]),
        i < s.len() ==> !is_ws(s@[i as int]),
{
    let n = s.len();
    let mut i: usize = 0;
    assert(s@.skip(0) == s@);
    while i < n && is_whitespace(s[i])
        invariant
            n == s.len(),
            i <= n,
            trim_start(s@) == trim_start(s@.skip(i as int)),
            forall|j: int| 0 <= j < i ==> is_ws(#[trigger] s@[j]),
        decreases n - i,
    {
        assert(s@.skip(i as int).drop_first() == s@.skip(i + 1));
        i += 1;
    }
    i
}

/// The bounds `(start, end)` of `s` without its leading and trailing whitespace.
pub fn trim_bounds(s: &Vec<char>) -> (r: (usize, usize))
    ensures
        r.0 <= r.1 <= s.len(),
        trim(s@) == s@.subrange(r.0 as int, r.1 as int),
        trim_start(s@) == s@.skip(r.0 as int),
{
    let start = trim_start_index(s);
    let mut end = s.len();
    while end > start && is_whitespace(s[end - 1])
        invariant
            start <= end <= s.len(),
            trim_start(s@) == s@.skip(start as int),
            trim(s@) == trim_end(s@.subrange(start as int, end as int)),
        decreases end,
    {
        assert(s@.subrange(start as int, end as int).drop_last() == s@.subrange(
            start as int,
            end - 1,
        ));
        end -= 1;
    }
    assert(s@.skip(start as int) == s@.subrange(start as int, s.len() as int));
    (start, end)
}

/// Whether `s` holds a whitespace character.
pub fn contains_whitespace(s: &Vec<char>) -> (r: bool)
    ensures
        r == has_ws(s@),
{
    let n = s.len();
    let mut i: usize = 0;
    while i < n
        invariant
            n == s.len(),
            i <= n,
            forall|j: int| 0 <= j < i ==> !is_ws(#[trigger] s@[j]),
        decreases n - i,
    {
        if is_whitespace(s[i]) {
            assert(is_ws(s@[i as int]));
            return true;
        }
        i += 1;
    }
    false
}

/// Whether `p` is a prefix of `s`.
pub fn has_prefix(s: &Vec<char>, p: &Vec<char>) -> (r: bool)
    ensures
        r == starts_with(s@, p@),
{
    if p.len() > s.len() {
        return false;
    }
    let n = p.len();
    let mut i: usize = 0;
    while i < n
        invariant
            n == p.len(),
            n <= s.len(),
            i <= n,
            forall|j: int| 0 <= j < i ==> s@[j] == p@[j],
        decreases n - i,
    {
        if s[i] != p[i] {
            assert(s@.take(n as int)[i as int] != p@[i as int]);
            return false;
        }
        i += 1;
    }
    assert(s@.take(n as int) == p@);
    true
}

/// Whether `a` and `b` hold the same characters.
pub fn same_chars(a: &Vec<char>, b: &Vec<char>) -> (r: bool)
    ensures
        r == (a@ == b@),
{
    if a.len() != b.len() {
        return false;
    }
    let r = has_prefix(a, b);
    assert(a@.take(b.len() as int) == a@);
    r
}

} // verus!

verus! {

/// The decimal digit character for `d` (for `d < 10`).
pub open spec fn digit_char(d: nat) -> char {
    if d == 0 {
        '0'
    } else if d == 1 {
        '1'
    } else if d == 2 {
        '2'
    } else if d == 3 {
        '3'
    } else if d == 4 {
        '4'
    } else if d == 5 {
        '5'
    } else if d == 6 {
        '6'
    } else if d == 7 {
        '7'
    } else if d == 8 {
        '8'
    } else {
        '9'
    }
}

/// The decimal rendering of `n`, without sign or leading zeros.
pub open spec fn decimal(n: nat) -> Seq<char>
    decreases n,
{
    if n < 10 {
        seq![digit_char(n)]
    } else {
        decimal(n / 10).push(digit_char(n % 10))
    }
}

fn digit(d: u128) -> (c: char)
    requires
        d < 10,
    ensures
        c == digit_char(d as nat),
{
    if d == 0 {
        '0'
    } else if d == 1 {
        '1'
    } else if d == 2 {
        '2'
    } else if d == 3 {
        '3'
    } else if d == 4 {
        '4'
    } else if d == 5 {
        '5'
    } else if d == 6 {
        '6'
    } else if d == 7 {
        '7'
    } else if d == 8 {
        '8'
    } else {
        '9'
    }
}

/// The decimal rendering of `n`.
pub fn decimal_chars(n: u128) -> (v: Vec<char>)
    ensures
        v@ == decimal(n as nat),
{
    let mut m = n;
    let mut suffix: Vec<char> = Vec::new();
    while m >= 10
        invariant
            decimal(n as nat) == decimal(m as nat) + suffix@,
        decreases m,
    {
        let d = digit(m % 10);
        let ghost prev = suffix@;
        suffix.insert(0, d);
        assert(decimal(m as nat) == decimal((m / 10) as nat).push(d));
        assert(decimal((m / 10) as nat).push(d) + prev == decimal((m / 10) as nat) + suffix@);
        m = m / 10;
    }
    let mut v: Vec<char> = Vec::new();
    v.push(digit(m));
    append_chars(&mut v, &suffix);
    v
}

/// Appends the characters of `w` to `v`.
pub fn append_chars(v: &mut Vec<char>, w: &Vec<char>)
    ensures
        final(v)@ == old(v)@ + w@,
{
    let n = w.len();
    let mut i: usize = 0;
    while i < n
        invariant
            n == w.len(),
            i <= n,
            v@ == old(v)@ + w@.take(i as int),
        decreases n - i,
    {
        v.push(w[i]);
        assert(w@.take(i + 1) == w@.take(i as int).push(w@[i as int]));
        i += 1;
    }
    assert(w@.take(n as int) == w@);
}

} // verus!

verus! {

/// The maximal runs of non-whitespace characters of `s`, in order.
pub open spec fn words(s: Seq<char>) -> Seq<Seq<char>>
    decreases s.len(),
{
    if s.len() == 0 {
        seq![]
    } else {
        let w = words(s.drop_last());
        let c = s.last();
        if is_ws(c) {
            w
        } else if s.len() >= 2 && !is_ws(s[s.len() - 2]) {
            w.update(w.len() - 1, w.last().push(c))
        } else {
            w.push(seq![c])
        }
    }
}

/// The words of `ws` joined by single spaces.
pub open spec fn join_words(ws: Seq<Seq<char>>) -> Seq<char>
    decreases ws.len(),
{
    if ws.len() == 0 {
        seq![]
    } else if ws.len() == 1 {
        ws[0]
    } else {
        join_words(ws.drop_last()) + seq![' '] + ws.last()
    }
}

/// `s` with whitespace runs collapsed to single spaces and no whitespace at either end.
pub open spec fn collapse_ws(s: Seq<char>) -> Seq<char> {
    join_words(words(s))
}

/// A word: non-empty and free of whitespace.
pub open spec fn is_word(w: Seq<char>) -> bool {
    w.len() > 0 && !has_ws(w)
}

/// Every element of `words(s)` is non-empty and free of whitespace; there is a
/// last word exactly when `s` ends in a non-whitespace character, or earlier ones do.
pub proof fn lemma_words_are_words(s: Seq<char>)
    ensures
        forall|k: int| 0 <= k < words(s).len() ==> is_word(#[trigger] words(s)[k]),
        s.len() > 0 && !is_ws(s.last()) ==> words(s).len() > 0,
    decreases s.len(),
{
    if s.len() > 0 {
        let p = s.drop_last();
        lemma_words_are_words(p);
        let w = words(p);
        let c = s.last();
        if !is_ws(c) && s.len() >= 2 && !is_ws(s[s.len() - 2]) {
            assert(p.last() == s[s.len() - 2]);
            let nw = w.last().push(c);
            assert(is_word(w[w.len() - 1]));
            assert forall|j: int| 0 <= j < nw.len() implies !is_ws(#[trigger] nw[j]) by {
                if j < nw.len() - 1 {
                    assert(nw[j] == w.last()[j]);
                }
            }
            assert(is_word(nw));
        } else if !is_ws(c) {
            let nw = seq![c];
            assert forall|j: int| 0 <= j < nw.len() implies !is_ws(#[trigger] nw[j]) by {}
            assert(is_word(nw));
        }
    }
}

/// The joined words are empty exactly when there are no words, provided all are non-empty.
pub proof fn lemma_join_empty(ws: Seq<Seq<char>>)
    requires
        forall|k: int| 0 <= k < ws.len() ==> (#[trigger] ws[k]).len() > 0,
    ensures
        (join_words(ws).len() == 0) == (ws.len() == 0),
    decreases ws.len(),
{
    if ws.len() > 1 {
        assert(ws.last() == ws[ws.len() - 1]);
    }
}

proof fn lemma_join_extend_last(ws: Seq<Seq<char>>, c: char)
    requires
        ws.len() > 0,
    ensures
        join_words(ws.update(ws.len() - 1, ws.last().push(c))) == join_words(ws).push(c),
{
    let u = ws.update(ws.len() - 1, ws.last().push(c));
    if ws.len() > 1 {
        assert(u.drop_last() == ws.drop_last());
    }
}

proof fn lemma_join_push(ws: Seq<Seq<char>>, x: Seq<char>)
    ensures
        join_words(ws.push(x)) == if ws.len() == 0 {
            x
        } else {
            join_words(ws) + seq![' '] + x
        },
{
    assert(ws.push(x).drop_last() == ws);
}

/// `s` with whitespace runs collapsed to single spaces and no whitespace at either end
/// (the words of `s` joined by `' '`).
pub fn collapse_whitespace(s: &Vec<char>) -> (r: Vec<char>)
    ensures
        r@ == collapse_ws(s@),
{
    let n = s.len();
    let mut out: Vec<char> = Vec::new();
    let mut in_word = false;
    let mut i: usize = 0;
    assert(s@.take(0) == Seq::<char>::empty());
    while i < n
        invariant
            n == s.len(),
            i <= n,
            out@ == join_words(words(s@.take(i as int))),
            (out@.len() == 0) == (words(s@.take(i as int)).len() == 0),
            in_word == (i > 0 && !is_ws(s@[i - 1])),
            in_word ==> words(s@.take(i as int)).len() > 0,
        decreases n - i,
    {
        let c = s[i];
        let ghost p = s@.take(i as int);
        let ghost q = s@.take(i + 1);
        assert(q.drop_last() == p);
        assert(q.last() == c);
        proof {
            lemma_words_are_words(p);
            lemma_words_are_words(q);
        }
        if is_whitespace(c) {
            in_word = false;
        } else if in_word {
            assert(q[q.len() - 2] == s@[i - 1]);
            proof {
                lemma_join_extend_last(words(p), c);
            }
            out.push(c);
        } else {
            proof {
                lemma_join_push(words(p), seq![c]);
            }
            if out.len() > 0 {
                out.push(' ');
            }
            out.push(c);
            assert(out@ == join_words(words(q)));
            in_word = true;
        }
        proof {
            assert forall|k: int| 0 <= k < words(q).len() implies (#[trigger] words(q)[k]).len()
                > 0 by {
                assert(is_word(words(q)[k]));
            }
            lemma_join_empty(words(q));
        }
        i += 1;
    }
    assert(s@.take(n as int) == s@);
    out
}

} // verus!

verus! {

/// `s` with every non-overlapping occurrence of `p`, found from left to right, replaced by `t`.
pub open spec fn replace_all(s: Seq<char>, p: Seq<char>, t: Seq<char>) -> Seq<char>
    decreases s.len(),
{
    if s.len() == 0 {
        seq![]
    } else if p.len() > 0 && starts_with(s, p) {
        t + replace_all(s.skip(p.len() as int), p, t)
    } else {
        seq![s[0]] + replace_all(s.drop_first(), p, t)
    }
}

/// Whether `p` occurs in `s` at position `i`.
fn occurs_at(s: &Vec<char>, i: usize, p: &Vec<char>) -> (r: bool)
    requires
        i <= s.len(),
    ensures
        r == starts_with(s@.skip(i as int), p@),
{
    if p.len() > s.len() - i {
        return false;
    }
    let n = p.len();
    let mut j: usize = 0;
    while j < n
        invariant
            n == p.len(),
            i + n <= s.len(),
            j <= n,
            forall|k: int| 0 <= k < j ==> s@[i + k] == p@[k],
        decreases n - j,
    {
        if s[i + j] != p[j] {
            assert(s@.skip(i as int).take(n as int)[j as int] != p@[j as int]);
            return false;
        }
        j += 1;
    }
    assert(s@.skip(i as int).take(n as int) == p@);
    true
}

/// `s` with every non-overlapping occurrence of `p`, found from left to right, replaced by `t`.
pub fn replace_chars(s: &Vec<char>, p: &Vec<char>, t: &Vec<char>) -> (r: Vec<char>)
    requires
        p.len() > 0,
    ensures
        r@ == replace_all(s@, p@, t@),
{
    let n = s.len();
    let mut out: Vec<char> = Vec::new();
    let mut i: usize = 0;
    assert(s@.skip(0) == s@);
    while i < n
        invariant
            n == s.len(),
            p.len() > 0,
            i <= n,
            out@ + replace_all(s@.skip(i as int), p@, t@) == replace_all(s@, p@, t@),
        decreases n - i,
    {
        let ghost rest = s@.skip(i as int);
        let ghost old_out = out@;
        if occurs_at(s, i, p) {
            append_chars(&mut out, t);
            assert(rest.skip(p.len() as int) == s@.skip(i + p.len()));
            assert(old_out + (t@ + replace_all(rest.skip(p.len() as int), p@, t@)) == out@
                + replace_all(s@.skip(i + p.len()), p@, t@));
            i += p.len();
        } else {
            out.push(s[i]);
            assert(rest.drop_first() == s@.skip(i + 1));
            assert(old_out + (seq![rest[0]] + replace_all(rest.drop_first(), p@, t@)) == out@
                + replace_all(s@.skip(i + 1), p@, t@));
            i += 1;
        }
    }
    assert(out@ + replace_all(s@.skip(n as int), p@, t@) == out@);
    out
}

/// Whether `c` is an ASCII decimal digit.
pub open spec fn is_digit(c: char) -> bool {
    '0' <= c <= '9'
}

/// The value of the ASCII decimal digit `c`.
pub open spec fn digit_value(c: char) -> nat {
    (c as u32 - '0' as u32) as nat
}

/// The value of the decimal digits `s`.
pub open spec fn digits_value(s: Seq<char>) -> nat
    decreases s.len(),
{
    if s.len() == 0 {
        0
    } else {
        digits_value(s.drop_last()) * 10 + digit_value(s.last())
    }
}

/// Whether every character of `s` is an ASCII decimal digit.
pub open spec fn all_digits(s: Seq<char>) -> bool {
    forall|i: int| 0 <= i < s.len() ==> is_digit(#[trigger] s[i])
}

/// What parsing `s` as a `u64` gives: an optional `+`, then one or more ASCII digits
/// whose value fits in a `u64`.
pub open spec fn parse_u64_spec(s: Seq<char>) -> Option<u64> {
    let d = if s.len() > 0 && s[0] == '+' {
        s.drop_first()
    } else {
        s
    };
    if d.len() > 0 && all_digits(d) && digits_value(d) <= u64::MAX {
        Some(digits_value(d) as u64)
    } else {
        None
    }
}

proof fn lemma_digits_value_prefix(s: Seq<char>, k: int)
    requires
        0 <= k <= s.len(),
        all_digits(s),
    ensures
        digits_value(s.take(k)) <= digits_value(s),
    decreases s.len(),
{
    if k < s.len() {
        let p = s.drop_last();
        assert(p.take(k) == s.take(k));
        lemma_digits_value_prefix(p, k);
    } else {
        assert(s.take(k) == s);
    }
}

/// Parses `s` as a `u64`, as `str::parse::<u64>` does.
pub fn parse_u64(s: &Vec<char>) -> (r: Option<u64>)
    ensures
        r == parse_u64_spec(s@),
{
    let n = s.len();
    let start: usize = if n > 0 && s[0] == '+' {
        1
    } else {
        0
    };
    let ghost d = s@.skip(start as int);
    assert(d == if s@.len() > 0 && s@[0] == '+' {
        s@.drop_first()
    } else {
        s@
    });
    if start == n {
        return None;
    }
    let mut acc: u64 = 0;
    let mut i: usize = start;
    assert(d.take(0) == Seq::<char>::empty());
    while i < n
        invariant
            n == s.len(),
            start <= i <= n,
            d == s@.skip(start as int),
            d == (if s@.len() > 0 && s@[0] == '+' {
                s@.drop_first()
            } else {
                s@
            }),
            d.len() > 0,
            acc == digits_value(d.take(i - start)),
            all_digits(d.take(i - start)),
        decreases n - i,
    {
        let c = s[i];
        let ghost q = d.take(i - start + 1);
        assert(q.drop_last() == d.take(i - start));
        assert(q.last() == c);
        if c < '0' || c > '9' {
            assert(!is_digit(d[i - start]));
            return None;
        }
        assert(all_digits(q));
        let v = (c as u32 - '0' as u32) as u64;
        match acc.checked_mul(10) {
            None => {
                proof {
                    if all_digits(d) {
                        lemma_digits_value_prefix(d, i - start + 1);
                    }
                }
                return None;
            },
            Some(m) => match m.checked_add(v) {
                None => {
                    proof {
                        if all_digits(d) {
                            lemma_digits_value_prefix(d, i - start + 1);
                        }
                    }
                    return None;
                },
                Some(a) => {
                    acc = a;
                },
            },
        }
        i += 1;
    }
    assert(d.take(n - start) == d);
    Some(acc)
}

} // verus!

verus! {

/// Whether `s` is in collapsed form: empty, or with non-whitespace ends and every
/// whitespace character a single space followed by a non-whitespace character.
pub open spec fn is_collapsed(s: Seq<char>) -> bool {
    s.len() == 0 || {
        &&& !is_ws(s[0])
        &&& !is_ws(s.last())
        &&& forall|i: int|
            0 <= i < s.len() && is_ws(#[trigger] s[i]) ==> s[i] == ' ' && i + 1 < s.len()
                && !is_ws(s[i + 1])
    }
}

proof fn lemma_join_collapsed(ws: Seq<Seq<char>>)
    requires
        forall|k: int| 0 <= k < ws.len() ==> is_word(#[trigger] ws[k]),
    ensures
        is_collapsed(join_words(ws)),
        ws.len() > 0 ==> join_words(ws).len() > 0,
    decreases ws.len(),
{
    if ws.len() == 1 {
        let w = ws[0];
        assert(is_word(w));
        assert forall|i: int| 0 <= i < w.len() implies !is_ws(#[trigger] w[i]) by {}
    } else if ws.len() > 1 {
        let init = ws.drop_last();
        let w = ws.last();
        assert(is_word(ws[ws.len() - 1]));
        assert forall|k: int| 0 <= k < init.len() implies is_word(#[trigger] init[k]) by {
            assert(init[k] == ws[k]);
        }
        lemma_join_collapsed(init);
        let a = join_words(init);
        let j = a + seq![' '] + w;
        assert(j == join_words(ws));
        assert(!is_ws(w[w.len() - 1]));
        assert(j.last() == w[w.len() - 1]);
        assert(j[0] == a[0]);
        assert forall|i: int| 0 <= i < j.len() && is_ws(#[trigger] j[i]) implies j[i] == ' ' && i
            + 1 < j.len() && !is_ws(j[i + 1]) by {
            if i < a.len() {
                assert(j[i] == a[i]);
                if i == a.len() - 1 {
                    assert(a[i] == a.last());
                } else {
                    assert(j[i + 1] == a[i + 1]);
                }
            } else if i == a.len() {
                assert(j[i + 1] == w[0]);
            } else {
                assert(j[i] == w[i - a.len() - 1]);
            }
        }
    }
}

/// Collapsing whitespace gives the collapsed form.
pub proof fn lemma_collapse_ws_is_collapsed(s: Seq<char>)
    ensures
        is_collapsed(collapse_ws(s)),
{
    lemma_words_are_words(s);
    lemma_join_collapsed(words(s));
}

proof fn lemma_trim_start_shape(s: Seq<char>)
    ensures
        trim_start(s).len() == 0 || !is_ws(trim_start(s)[0]),
        exists|k: int| 0 <= k <= s.len() && trim_start(s) == s.skip(k),
    decreases s.len(),
{
    if s.len() > 0 && is_ws(s[0]) {
        lemma_trim_start_shape(s.drop_first());
        let k = choose|k: int|
            0 <= k <= s.drop_first().len() && trim_start(s.drop_first()) == s.drop_first().skip(
                k,
            );
        assert(s.drop_first().skip(k) == s.skip(k + 1));
    } else {
        assert(s.skip(0) == s);
    }
}

proof fn lemma_trim_end_shape(s: Seq<char>)
    ensures
        trim_end(s).len() == 0 || !is_ws(trim_end(s).last()),
        exists|k: int| 0 <= k <= s.len() && trim_end(s) == s.take(k),
    decreases s.len(),
{
    if s.len() > 0 && is_ws(s.last()) {
        lemma_trim_end_shape(s.drop_last());
        let k = choose|k: int|
            0 <= k <= s.drop_last().len() && trim_end(s.drop_last()) == s.drop_last().take(k);
        assert(s.drop_last().take(k) == s.take(k));
    } else {
        assert(s.take(s.len() as int) == s);
    }
}

/// A text without whitespace at either end is its own trim.
pub proof fn lemma_trim_of_trimmed(t: Seq<char>)
    requires
        t.len() == 0 || (!is_ws(t[0]) && !is_ws(t.last())),
    ensures
        trim(t) == t,
{
}

/// The trim of a text is empty or has no whitespace at either end.
pub proof fn lemma_trim_shape(s: Seq<char>)
    ensures
        trim(s).len() == 0 || (!is_ws(trim(s)[0]) && !is_ws(trim(s).last())),
{
    let x = trim_start(s);
    lemma_trim_start_shape(s);
    lemma_trim_end_shape(x);
    let k = choose|k: int| 0 <= k <= x.len() && trim_end(x) == x.take(k);
    if trim(s).len() > 0 {
        assert(trim(s)[0] == x[0]);
    }
}

/// Trimming twice is trimming once.
pub proof fn lemma_trim_idempotent(s: Seq<char>)
    ensures
        trim(trim(s)) == trim(s),
{
    lemma_trim_shape(s);
    lemma_trim_of_trimmed(trim(s));
}

} // verus!

verus! {

/// Whether `p` occurs in `s`.
pub open spec fn occurs(s: Seq<char>, p: Seq<char>) -> bool {
    exists|i: int| 0 <= i && i + p.len() <= s.len() && #[trigger] s.subrange(i, i + p.len()) == p
}

proof fn lemma_occurs_in_suffix(x: Seq<char>, k: int, p: Seq<char>)
    requires
        0 <= k <= x.len(),
        occurs(x.skip(k), p),
    ensures
        occurs(x, p),
{
    let y = x.skip(k);
    let i = choose|i: int| 0 <= i && i + p.len() <= y.len() && #[trigger] y.subrange(i, i + p.len()) == p;
    assert(x.subrange(i + k, i + k + p.len()) =~= y.subrange(i, i + p.len()));
}

proof fn lemma_occurs_in_prefix(x: Seq<char>, k: int, p: Seq<char>)
    requires
        0 <= k <= x.len(),
        occurs(x.take(k), p),
    ensures
        occurs(x, p),
{
    let y = x.take(k);
    let i = choose|i: int| 0 <= i && i + p.len() <= y.len() && #[trigger] y.subrange(i, i + p.len()) == p;
    assert(x.subrange(i, i + p.len()) =~= y.subrange(i, i + p.len()));
}

proof fn lemma_occurs_trans(x: Seq<char>, w: Seq<char>, p: Seq<char>)
    requires
        occurs(x, w),
        occurs(w, p),
    ensures
        occurs(x, p),
{
    let i = choose|i: int| 0 <= i && i + w.len() <= x.len() && #[trigger] x.subrange(i, i + w.len()) == w;
    let j = choose|j: int| 0 <= j && j + p.len() <= w.len() && #[trigger] w.subrange(j, j + p.len()) == p;
    assert(x.subrange(i + j, i + j + p.len()) =~= w.subrange(j, j + p.len()));
}

/// A whitespace-free text that begins the result of replacing occurrences by whitespace
/// begins the text before the replacement too.
proof fn lemma_replace_prefix_back(x: Seq<char>, q: Seq<char>, t: Seq<char>, w: Seq<char>)
    requires
        t.len() > 0,
        all_ws(t),
        !has_ws(w),
        starts_with(replace_all(x, q, t), w),
    ensures
        starts_with(x, w),
    decreases x.len(),
{
    let r = replace_all(x, q, t);
    if w.len() == 0 {
        assert(x.take(0) =~= w);
    } else if x.len() == 0 {
        assert(r.len() == 0);
    } else if q.len() > 0 && starts_with(x, q) {
        assert(r[0] == t[0]);
        assert(w[0] == r.take(w.len() as int)[0]);
        assert(is_ws(w[0]));
        assert(false);
    } else {
        let x1 = x.drop_first();
        let r1 = replace_all(x1, q, t);
        assert(r == seq![x[0]] + r1);
        let w1 = w.drop_first();
        assert(r1.take(w1.len() as int) =~= r.take(w.len() as int).drop_first());
        assert forall|j: int| 0 <= j < w1.len() implies !is_ws(#[trigger] w1[j]) by {
            assert(w1[j] == w[j + 1]);
        }
        lemma_replace_prefix_back(x1, q, t, w1);
        assert(w[0] == r.take(w.len() as int)[0]);
        assert(x.take(w.len() as int) =~= seq![x[0]] + x1.take(w1.len() as int));
        assert(w =~= seq![w[0]] + w1);
    }
}

/// Replacing occurrences of `q` by whitespace creates no occurrence of a whitespace-free `p`.
pub proof fn lemma_replace_keeps_absent(x: Seq<char>, q: Seq<char>, t: Seq<char>, p: Seq<char>)
    requires
        q.len() > 0,
        t.len() > 0,
        all_ws(t),
        p.len() > 0,
        !has_ws(p),
        !occurs(x, p),
    ensures
        !occurs(replace_all(x, q, t), p),
    decreases x.len(),
{
    let r = replace_all(x, q, t);
    let n = p.len() as int;
    if x.len() == 0 {
    } else if starts_with(x, q) {
        let rest = x.skip(q.len() as int);
        if occurs(rest, p) {
            lemma_occurs_in_suffix(x, q.len() as int, p);
        }
        lemma_replace_keeps_absent(rest, q, t, p);
        let r1 = replace_all(rest, q, t);
        assert(r == t + r1);
        if occurs(r, p) {
            let i = choose|i: int| 0 <= i && i + n <= r.len() && #[trigger] r.subrange(i, i + n) == p;
            if i < t.len() {
                assert(p[0] == r.subrange(i, i + n)[0]);
                assert(r[i] == t[i]);
                assert(is_ws(p[0]));
            } else {
                assert(r1.subrange(i - t.len(), i - t.len() + n) =~= r.subrange(i, i + n));
            }
            assert(false);
        }
    } else {
        let x1 = x.drop_first();
        if occurs(x1, p) {
            lemma_occurs_in_suffix(x, 1, p);
        }
        lemma_replace_keeps_absent(x1, q, t, p);
        let r1 = replace_all(x1, q, t);
        assert(r == seq![x[0]] + r1);
        if occurs(r, p) {
            let i = choose|i: int| 0 <= i && i + n <= r.len() && #[trigger] r.subrange(i, i + n) == p;
            if i == 0 {
                let p1 = p.drop_first();
                assert(r1.take(p1.len() as int) =~= r.subrange(0, n).drop_first());
                assert forall|j: int| 0 <= j < p1.len() implies !is_ws(#[trigger] p1[j]) by {
                    assert(p1[j] == p[j + 1]);
                }
                lemma_replace_prefix_back(x1, q, t, p1);
                assert(p[0] == r.subrange(0, n)[0]);
                assert(x.subrange(0, n) =~= seq![x[0]] + x1.take(p1.len() as int));
                assert(p =~= seq![p[0]] + p1);
                assert(x.subrange(0, 0 + n) == p);
            } else {
                assert(r1.subrange(i - 1, i - 1 + n) =~= r.subrange(i, i + n));
            }
            assert(false);
        }
    }
}

/// After every occurrence of a whitespace-free `p` is replaced by whitespace, `p` no longer occurs.
pub proof fn lemma_replace_removes(x: Seq<char>, p: Seq<char>, t: Seq<char>)
    requires
        p.len() > 0,
        !has_ws(p),
        t.len() > 0,
        all_ws(t),
    ensures
        !occurs(replace_all(x, p, t), p),
    decreases x.len(),
{
    let r = replace_all(x, p, t);
    let n = p.len() as int;
    if x.len() == 0 {
    } else if starts_with(x, p) {
        let rest = x.skip(n);
        lemma_replace_removes(rest, p, t);
        let r1 = replace_all(rest, p, t);
        assert(r == t + r1);
        if occurs(r, p) {
            let i = choose|i: int| 0 <= i && i + n <= r.len() && #[trigger] r.subrange(i, i + n) == p;
            if i < t.len() {
                assert(p[0] == r.subrange(i, i + n)[0]);
                assert(r[i] == t[i]);
                assert(is_ws(p[0]));
            } else {
                assert(r1.subrange(i - t.len(), i - t.len() + n) =~= r.subrange(i, i + n));
            }
            assert(false);
        }
    } else {
        let x1 = x.drop_first();
        lemma_replace_removes(x1, p, t);
        let r1 = replace_all(x1, p, t);
        assert(r == seq![x[0]] + r1);
        if occurs(r, p) {
            let i = choose|i: int| 0 <= i && i + n <= r.len() && #[trigger] r.subrange(i, i + n) == p;
            if i == 0 {
                let p1 = p.drop_first();
                assert(r1.take(p1.len() as int) =~= r.subrange(0, n).drop_first());
                assert forall|j: int| 0 <= j < p1.len() implies !is_ws(#[trigger] p1[j]) by {
                    assert(p1[j] == p[j + 1]);
                }
                lemma_replace_prefix_back(x1, p, t, p1);
                assert(p[0] == r.subrange(0, n)[0]);
                assert(x.take(n) =~= seq![x[0]] + x1.take(p1.len() as int));
                assert(p =~= seq![p[0]] + p1);
            } else {
                assert(r1.subrange(i - 1, i - 1 + n) =~= r.subrange(i, i + n));
            }
            assert(false);
        }
    }
}

} // verus!

verus! {

proof fn lemma_words_occur(x: Seq<char>)
    ensures
        forall|k: int| 0 <= k < words(x).len() ==> occurs(x, #[trigger] words(x)[k]),
        x.len() > 0 && !is_ws(x.last()) ==> {
            let w = words(x);
            w.len() > 0 && w.last().len() <= x.len() && w.last() == x.skip(x.len() - w.last().len())
        },
    decreases x.len(),
{
    if x.len() > 0 {
        let y = x.drop_last();
        let c = x.last();
        lemma_words_occur(y);
        lemma_words_are_words(y);
        lemma_words_are_words(x);
        let wy = words(y);
        let wx = words(x);
        assert(y == x.take(x.len() - 1));
        if is_ws(c) {
            assert forall|k: int| 0 <= k < wx.len() implies occurs(x, #[trigger] wx[k]) by {
                assert(occurs(y, wy[k]));
                lemma_occurs_in_prefix(x, x.len() - 1, wx[k]);
            }
        } else if x.len() >= 2 && !is_ws(x[x.len() - 2]) {
            assert(y.last() == x[x.len() - 2]);
            let m = wy.last().len() as int;
            assert(wx.last() =~= x.skip(x.len() - (m + 1)));
            assert forall|k: int| 0 <= k < wx.len() implies occurs(x, #[trigger] wx[k]) by {
                if k < wx.len() - 1 {
                    assert(wx[k] == wy[k]);
                    assert(occurs(y, wy[k]));
                    lemma_occurs_in_prefix(x, x.len() - 1, wx[k]);
                } else {
                    let s = x.len() - (m + 1);
                    assert(x.subrange(s, s + wx[k].len()) =~= wx[k]);
                }
            }
        } else {
            assert(wx.last() =~= x.skip(x.len() - 1));
            assert forall|k: int| 0 <= k < wx.len() implies occurs(x, #[trigger] wx[k]) by {
                if k < wx.len() - 1 {
                    assert(wx[k] == wy[k]);
                    assert(occurs(y, wy[k]));
                    lemma_occurs_in_prefix(x, x.len() - 1, wx[k]);
                } else {
                    let s = x.len() - 1;
                    assert(x.subrange(s, s + wx[k].len()) =~= wx[k]);
                }
            }
        }
    }
}

proof fn lemma_join_keeps_absent(ws: Seq<Seq<char>>, p: Seq<char>)
    requires
        p.len() > 0,
        !has_ws(p),
        forall|k: int| 0 <= k < ws.len() ==> !occurs(#[trigger] ws[k], p),
    ensures
        !occurs(join_words(ws), p),
    decreases ws.len(),
{
    let n = p.len() as int;
    if ws.len() == 1 {
        assert(!occurs(ws[0], p));
    } else if ws.len() > 1 {
        let init = ws.drop_last();
        let w = ws.last();
        assert forall|k: int| 0 <= k < init.len() implies !occurs(#[trigger] init[k], p) by {
            assert(init[k] == ws[k]);
        }
        lemma_join_keeps_absent(init, p);
        let a = join_words(init);
        let j = join_words(ws);
        assert(j == a + seq![' '] + w);
        assert(!occurs(ws[ws.len() - 1], p));
        if occurs(j, p) {
            let i = choose|i: int| 0 <= i && i + n <= j.len() && #[trigger] j.subrange(i, i + n) == p;
            if i + n <= a.len() {
                assert(a.subrange(i, i + n) =~= j.subrange(i, i + n));
            } else if i > a.len() {
                assert(w.subrange(i - a.len() - 1, i - a.len() - 1 + n) =~= j.subrange(i, i + n));
            } else {
                let d = a.len() - i;
                assert(p[d] == j.subrange(i, i + n)[d]);
                assert(j[a.len() as int] == ' ');
                assert(is_ws(p[d]));
            }
            assert(false);
        }
    }
}

/// Collapsing whitespace creates no occurrence of a whitespace-free `p`.
pub proof fn lemma_collapse_keeps_absent(x: Seq<char>, p: Seq<char>)
    requires
        p.len() > 0,
        !has_ws(p),
        !occurs(x, p),
    ensures
        !occurs(collapse_ws(x), p),
{
    lemma_words_occur(x);
    let ws = words(x);
    assert forall|k: int| 0 <= k < ws.len() implies !occurs(#[trigger] ws[k], p) by {
        if occurs(ws[k], p) {
            lemma_occurs_trans(x, ws[k], p);
        }
    }
    lemma_join_keeps_absent(ws, p);
}

/// The decimal rendering of a number is made of ASCII digits only.
pub proof fn lemma_decimal_digits(n: nat)
    ensures
        decimal(n).len() > 0,
        forall|i: int| 0 <= i < decimal(n).len() ==> is_digit(#[trigger] decimal(n)[i]),
    decreases n,
{
    if n >= 10 {
        lemma_decimal_digits(n / 10);
    }
}

} // verus!

verus! {

/// The whitespace characters are exactly the 25 code points of the Unicode `White_Space`
/// property: U+0009 to U+000D, U+0020, U+0085, U+00A0, U+1680, U+2000 to U+200A,
/// U+2028, U+2029, U+202F, U+205F and U+3000.
pub proof fn lemma_white_space_code_points(c: char)
    ensures
        is_ws(c) <==> {
            let n = c as u32;
            ||| n == 9
            ||| n == 10
            ||| n == 11
            ||| n == 12
            ||| n == 13
            ||| n == 32
            ||| n == 133
            ||| n == 160
            ||| n == 5760
            ||| n == 8192
            ||| n == 8193
            ||| n == 8194
            ||| n == 8195
            ||| n == 8196
            ||| n == 8197
            ||| n == 8198
            ||| n == 8199
            ||| n == 8200
            ||| n == 8201
            ||| n == 8202
            ||| n == 8232
            ||| n == 8233
            ||| n == 8239
            ||| n == 8287
            ||| n == 12288
        },
        (c as u32) > 0x3000 ==> !is_ws(c),
        0x21 <= (c as u32) <= 0x7e ==> !is_ws(c),
{
}

/// Replacing a pattern that does not occur leaves the text unchanged.
pub proof fn lemma_replace_absent_is_identity(s: Seq<char>, p: Seq<char>, t: Seq<char>)
    requires
        p.len() > 0,
        !occurs(s, p),
    ensures
        replace_all(s, p, t) == s,
    decreases s.len(),
{
    if s.len() > 0 {
        if starts_with(s, p) {
            assert(s.subrange(0, 0 + p.len() as int) == s.take(p.len() as int));
            assert(false);
        }
        let s1 = s.drop_first();
        assert(s1 == s.skip(1));
        if occurs(s1, p) {
            lemma_occurs_in_suffix(s, 1, p);
        }
        lemma_replace_absent_is_identity(s1, p, t);
        assert(replace_all(s, p, t) =~= s);
    }
}

proof fn lemma_words_of_word(s: Seq<char>)
    requires
        s.len() > 0,
        !has_ws(s),
    ensures
        words(s) == seq![s],
    decreases s.len(),
{
    let y = s.drop_last();
    assert(!is_ws(s[s.len() - 1]));
    if s.len() == 1 {
        assert(y.len() == 0);
        assert(seq![s.last()] =~= s);
        assert(words(y) =~= Seq::<Seq<char>>::empty());
        assert(words(s) == words(y).push(seq![s.last()]));
        assert(words(s) =~= seq![s]);
    } else {
        assert forall|i: int| 0 <= i < y.len() implies !is_ws(#[trigger] y[i]) by {
            assert(y[i] == s[i]);
        }
        lemma_words_of_word(y);
        assert(!is_ws(s[s.len() - 2]));
        assert(y.push(s.last()) =~= s);
        assert(words(y).len() == 1);
        assert(words(y).last() == y);
        assert(words(s) == words(y).update(0, y.push(s.last())));
        assert(words(s) =~= seq![s]);
    }
}

/// A non-empty text without whitespace is its own collapsed form: every character is kept.
pub proof fn lemma_collapse_keeps_word(s: Seq<char>)
    requires
        s.len() > 0,
        !has_ws(s),
    ensures
        collapse_ws(s) == s,
{
    lemma_words_of_word(s);
}

} // verus!

