//! Character-level helpers shared by the parsers and formatters of the library.
use vstd::prelude::*;


verus! {

/// `String::push` appends one character.
pub assume_specification[ String::push ](s: &mut String, ch: char)
    ensures
        final(s)@ == old(s)@.push(ch),
;

/// ASCII letter test (`u8::is_ascii_alphabetic` on a single-byte character).
pub open spec fn is_ascii_alpha(c: char) -> bool {
    ('a' <= c && c <= 'z') || ('A' <= c && c <= 'Z')
}

/// ASCII upper-casing of one character; other characters are unchanged.
pub open spec fn ascii_upper(c: char) -> char {
    if 'a' <= c && c <= 'z' {
        ((c as u32) - 32) as char
    } else {
        c
    }
}

/// ASCII lower-casing of one character; other characters are unchanged.
pub open spec fn ascii_lower(c: char) -> char {
    if 'A' <= c && c <= 'Z' {
        ((c as u32) + 32) as char
    } else {
        c
    }
}

pub fn char_is_ascii_alpha(c: char) -> (r: bool)
    ensures
        r == is_ascii_alpha(c),
{
    ('a' <= c && c <= 'z') || ('A' <= c && c <= 'Z')
}

pub fn char_ascii_upper(c: char) -> (r: char)
    ensures
        r == ascii_upper(c),
{
    if 'a' <= c && c <= 'z' {
        ((c as u8) - 32) as char
    } else {
        c
    }
}

pub fn char_ascii_lower(c: char) -> (r: char)
    ensures
        r == ascii_lower(c),
{
    if 'A' <= c && c <= 'Z' {
        ((c as u8) + 32) as char
    } else {
        c
    }
}

/// The characters of a string slice, in order.
pub fn chars_of(s: &str) -> (r: Vec<char>)
    ensures
        r@ == s@,
{
    let mut out: Vec<char> = Vec::new();
    for c in it: s.chars()
        invariant
            out@ == it.seq().take(it.index() as int),
            it.seq() == s@,
    {
        out.push(c);
    }
    out
}

/// A string holding exactly the given characters.
pub fn string_of(cs: &Vec<char>) -> (r: String)
    ensures
        r@ == cs@,
{
    let mut out = String::new();
    let mut i: usize = 0;
    while i < cs.len()
        invariant
            i <= cs.len(),
            out@ == cs@.take(i as int),
        decreases cs.len() - i,
    {
        out.push(cs[i]);
        assert(cs@.take(i + 1) == cs@.take(i as int).push(cs@[i as int]));
        i = i + 1;
    }
    assert(cs@.take(cs.len() as int) == cs@);
    out
}


/// Unicode `White_Space` (what `char::is_whitespace` tests).
pub open spec fn is_ws(c: char) -> bool {
    ('\u{9}' <= c && c <= '\u{d}') || c == ' ' || c == '\u{85}' || c == '\u{a0}'
        || c == '\u{1680}' || ('\u{2000}' <= c && c <= '\u{200a}') || c == '\u{2028}'
        || c == '\u{2029}' || c == '\u{202f}' || c == '\u{205f}' || c == '\u{3000}'
}

pub fn char_is_ws(c: char) -> (r: bool)
    ensures
        r == is_ws(c),
{
    ('\u{9}' <= c && c <= '\u{d}') || c == ' ' || c == '\u{85}' || c == '\u{a0}'
        || c == '\u{1680}' || ('\u{2000}' <= c && c <= '\u{200a}') || c == '\u{2028}'
        || c == '\u{2029}' || c == '\u{202f}' || c == '\u{205f}' || c == '\u{3000}'
}

/// `s` without its leading white space (`str::trim_start`).
pub open spec fn trim_start(s: Seq<char>) -> Seq<char>
    decreases s.len(),
{
    if s.len() > 0 && is_ws(s[0]) {
        trim_start(s.drop_first())
    } else {
        s
    }
}

/// `s` without its trailing white space (`str::trim_end`).
pub open spec fn trim_end(s: Seq<char>) -> Seq<char>
    decreases s.len(),
{
    if s.len() > 0 && is_ws(s.last()) {
        trim_end(s.drop_last())
    } else {
        s
    }
}

/// `s` without leading and trailing white space (`str::trim`).
pub open spec fn trim(s: Seq<char>) -> Seq<char> {
    trim_end(trim_start(s))
}

proof fn lemma_trim_start_skip(s: Seq<char>, i: int)
    requires
        0 <= i <= s.len(),
        forall|k: int| 0 <= k < i ==> is_ws(#[trigger] s[k]),
    ensures
        trim_start(s) == trim_start(s.skip(i)),
    decreases i,
{
    if i > 0 {
        assert(s.skip(1) == s.drop_first());
        lemma_trim_start_skip(s.drop_first(), i - 1);
        assert(s.drop_first().skip(i - 1) == s.skip(i));
    } else {
        assert(s.skip(0) == s);
    }
}

proof fn lemma_trim_end_take(s: Seq<char>, j: int)
    requires
        0 <= j <= s.len(),
        forall|k: int| j <= k < s.len() ==> is_ws(#[trigger] s[k]),
    ensures
        trim_end(s) == trim_end(s.take(j)),
    decreases s.len() - j,
{
    if j < s.len() {
        assert(s.take(s.len() - 1) == s.drop_last());
        lemma_trim_end_take(s.drop_last(), j);
        assert(s.drop_last().take(j) == s.take(j));
    } else {
        assert(s.take(j) == s);
    }
}

/// The characters of `s` without leading and trailing white space.
pub fn trim_chars(s: &Vec<char>) -> (r: Vec<char>)
    ensures
        r@ == trim(s@),
{
    let n = s.len();
    let mut i: usize = 0;
    while i < n && char_is_ws(s[i])
        invariant
            n == s.len(),
            i <= n,
            forall|k: int| 0 <= k < i ==> is_ws(#[trigger] s@[k]),
        decreases n - i,
    {
        i = i + 1;
    }
    proof {
        lemma_trim_start_skip(s@, i as int);
    }
    let ghost t = s@.skip(i as int);
    assert(trim_start(s@) == trim_start(t));
    assert(i < n ==> !is_ws(t[0]));
    assert(trim_start(t) == t) by {
        if t.len() > 0 {
            assert(!is_ws(t[0]));
        }
    }
    let mut j: usize = n;
    while j > i && char_is_ws(s[j - 1])
        invariant
            n == s.len(),
            i <= j <= n,
            forall|k: int| j <= k < n ==> is_ws(#[trigger] s@[k]),
        decreases j,
    {
        j = j - 1;
    }
    let mut out: Vec<char> = Vec::new();
    let mut k: usize = i;
    while k < j
        invariant
            n == s.len(),
            i <= k <= j <= n,
            out@ == s@.subrange(i as int, k as int),
        decreases j - k,
    {
        out.push(s[k]);
        assert(s@.subrange(i as int, k + 1) == s@.subrange(i as int, k as int).push(s@[k as int]));
        k = k + 1;
    }
    proof {
        let tj = (j - i) as int;
        assert forall|q: int| tj <= q < t.len() implies is_ws(#[trigger] t[q]) by {
            assert(t[q] == s@[q + i]);
        }
        lemma_trim_end_take(t, tj);
        assert(t.take(tj) == s@.subrange(i as int, j as int));
        let u = t.take(tj);
        if u.len() > 0 {
            assert(u.last() == s@[j - 1]);
            assert(!is_ws(u.last()));
        }
        assert(trim_end(u) == u);
    }
    out
}

/// Decimal value of a sequence of ASCII digits.
pub open spec fn digits_value(ds: Seq<char>) -> nat
    decreases ds.len(),
{
    if ds.len() == 0 {
        0
    } else {
        digits_value(ds.drop_last()) * 10 + ((ds.last() as u32) - ('0' as u32)) as nat
    }
}

pub open spec fn is_digit(c: char) -> bool {
    '0' <= c && c <= '9'
}

pub open spec fn all_digits(ds: Seq<char>) -> bool {
    forall|i: int| 0 <= i < ds.len() ==> is_digit(#[trigger] ds[i])
}

/// What `str::parse::<i64>` gives: an optional `+`/`-` sign and at least one ASCII digit, with a
/// value in the range of `i64`. Anything else is refused.
pub open spec fn parse_i64(s: Seq<char>) -> Option<int> {
    let neg = s.len() > 0 && s[0] == '-';
    let ds = if s.len() > 0 && (s[0] == '-' || s[0] == '+') { s.drop_first() } else { s };
    if ds.len() == 0 || !all_digits(ds) {
        None
    } else {
        let v: int = if neg { -(digits_value(ds) as int) } else { digits_value(ds) as int };
        if i64::MIN <= v && v <= i64::MAX {
            Some(v)
        } else {
            None
        }
    }
}

proof fn lemma_digits_value_prefix(ds: Seq<char>, i: int)
    requires
        0 <= i <= ds.len(),
        all_digits(ds),
    ensures
        digits_value(ds.take(i)) <= digits_value(ds),
    decreases ds.len() - i,
{
    if i < ds.len() {
        lemma_digits_value_prefix(ds, i + 1);
        let t = ds.take(i + 1);
        assert(t.drop_last() == ds.take(i));
        assert(is_digit(ds[i]));
    } else {
        assert(ds.take(i) == ds);
    }
}

/// `str::parse::<i64>` on a sequence of characters.
pub fn parse_i64_chars(s: &Vec<char>) -> (r: Option<i64>)
    ensures
        r matches Some(v) ==> parse_i64(s@) == Some(v as int),
        r is None ==> parse_i64(s@) is None,
{
    let n = s.len();
    let neg = n > 0 && s[0] == '-';
    let start: usize = if n > 0 && (s[0] == '-' || s[0] == '+') { 1 } else { 0 };
    let ghost ds = if s@.len() > 0 && (s@[0] == '-' || s@[0] == '+') { s@.drop_first() } else { s@ };
    assert(ds == s@.skip(start as int));
    if start == n {
        return None;
    }
    // Magnitude limit: 2^63 for a negative value, 2^63 - 1 otherwise.
    let limit: u64 = if neg { 9223372036854775808u64 } else { 9223372036854775807u64 };
    let mut acc: u64 = 0;
    let mut i: usize = start;
    let mut over = false;
    while i < n
        invariant
            n == s.len(),
            start <= i <= n,
            ds == s@.skip(start as int),
            ds == (if s@.len() > 0 && (s@[0] == '-' || s@[0] == '+') { s@.drop_first() } else { s@ }),
            all_digits(ds.take(i - start)),
            !over ==> acc as nat == digits_value(ds.take(i - start)) && acc <= limit,
            over ==> digits_value(ds.take(i - start)) > limit,
            limit == if neg { 9223372036854775808u64 } else { 9223372036854775807u64 },
            neg == (s@.len() > 0 && s@[0] == '-'),
        decreases n - i,
    {
        let c = s[i];
        assert(ds[i - start] == s@[i as int]);
        if !('0' <= c && c <= '9') {
            assert(!is_digit(ds[i - start]));
            return None;
        }
        let ghost pre = ds.take(i - start);
        assert(ds.take(i - start + 1).drop_last() == pre);
        assert(ds.take(i - start + 1).last() == c);
        let dv: u64 = ((c as u32) - ('0' as u32)) as u64;
        if !over {
            if acc > (limit - dv) / 10 {
                over = true;
                assert(digits_value(ds.take(i - start + 1)) > limit) by (nonlinear_arith)
                    requires
                        digits_value(ds.take(i - start + 1)) == acc * 10 + dv,
                        acc > (limit - dv) / 10,
                        dv <= 9,
                        limit >= 9,
                ;
            } else {
                assert(acc * 10 + dv <= limit) by (nonlinear_arith)
                    requires
                        acc <= (limit - dv) / 10,
                        dv <= 9,
                        limit >= 9,
                ;
                acc = acc * 10 + dv;
            }
        } else {
            assert(digits_value(ds.take(i - start + 1)) >= digits_value(pre) * 10);
        }
        assert(all_digits(ds.take(i - start + 1))) by {
            assert forall|k: int| 0 <= k < ds.take(i - start + 1).len() implies
                is_digit(#[trigger] ds.take(i - start + 1)[k]) by {
                if k < i - start {
                    assert(ds.take(i - start + 1)[k] == pre[k]);
                }
            }
        }
        i = i + 1;
    }
    assert(ds.take(n - start) == ds);
    if over {
        return None;
    }
    if neg {
        if acc == 9223372036854775808u64 {
            Some(i64::MIN)
        } else {
            Some(-(acc as i64))
        }
    } else {
        Some(acc as i64)
    }
}


/// The ASCII digit for `d < 10`.
pub open spec fn digit_char(d: nat) -> char {
    ((d + 48) as u32) as char
}

/// Decimal representation of `n`, without leading zeros (`"0"` for zero).
pub open spec fn decimal(n: nat) -> Seq<char>
    decreases n,
{
    if n < 10 {
        seq![digit_char(n)]
    } else {
        decimal(n / 10).push(digit_char(n % 10))
    }
}

/// `k` zero characters.
pub open spec fn zeros(k: int) -> Seq<char> {
    Seq::new(if k > 0 { k as nat } else { 0 }, |i: int| '0')
}

/// `s` left-padded with zeros up to `w` characters.
pub open spec fn pad_zero(s: Seq<char>, w: int) -> Seq<char> {
    if s.len() < w {
        zeros(w - s.len()) + s
    } else {
        s
    }
}

/// What `format!("{:0w$}", v)` writes for an integer: the sign, then the digits zero-padded so that
/// sign and digits together take at least `w` characters.
pub open spec fn fmt_zero_padded(v: int, w: int) -> Seq<char> {
    if v < 0 {
        seq!['-'] + pad_zero(decimal((-v) as nat), w - 1)
    } else {
        pad_zero(decimal(v as nat), w)
    }
}

fn push_decimal(out: &mut Vec<char>, n: u64)
    ensures
        final(out)@ == old(out)@ + decimal(n as nat),
    decreases n,
{
    if n >= 10 {
        push_decimal(out, n / 10);
    }
    let c = ((n % 10) as u8 + 48u8) as char;
    assert(c == digit_char((n % 10) as nat));
    out.push(c);
    proof {
        if n >= 10 {
            assert(decimal(n as nat) == decimal((n / 10) as nat).push(digit_char((n % 10) as nat)));
        } else {
            assert(decimal(n as nat) == seq![digit_char(n as nat)]);
        }
    }
}

/// Appends the characters of `s` to `out`.
pub fn append_chars(out: &mut Vec<char>, s: &str)
    ensures
        final(out)@ == old(out)@ + s@,
{
    let cs = chars_of(s);
    let ghost start = out@;
    let mut i: usize = 0;
    while i < cs.len()
        invariant
            i <= cs.len(),
            cs@ == s@,
            out@ == start + cs@.take(i as int),
        decreases cs.len() - i,
    {
        out.push(cs[i]);
        assert(cs@.take(i + 1) == cs@.take(i as int).push(cs@[i as int]));
        i = i + 1;
    }
    assert(cs@.take(cs.len() as int) == cs@);
}

/// `a` followed by `b`.
pub fn concat(a: &str, b: &str) -> (r: String)
    ensures
        r@ == a@ + b@,
{
    let mut out: Vec<char> = chars_of(a);
    append_chars(&mut out, b);
    string_of(&out)
}

/// `s` with every occurrence of `pat` replaced by `rep`, scanning left to right without
/// overlaps (what `str::replace` does for a non-empty pattern).
pub open spec fn replace_all(s: Seq<char>, pat: Seq<char>, rep: Seq<char>) -> Seq<char>
    decreases s.len(),
{
    if s.len() == 0 {
        Seq::empty()
    } else if 0 < pat.len() <= s.len() && s.take(pat.len() as int) == pat {
        rep + replace_all(s.skip(pat.len() as int), pat, rep)
    } else {
        seq![s[0]] + replace_all(s.skip(1), pat, rep)
    }
}

/// Whether `pat` occurs in `s` at position `i`.
fn occurs_at(s: &Vec<char>, i: usize, pat: &Vec<char>) -> (r: bool)
    requires
        i <= s.len(),
    ensures
        r == (i + pat.len() <= s.len() && s@.subrange(i as int, i + pat.len()) == pat@),
{
    if pat.len() > s.len() - i {
        return false;
    }
    let mut k: usize = 0;
    while k < pat.len()
        invariant
            k <= pat.len(),
            i + pat.len() <= s.len(),
            forall|m: int| 0 <= m < k ==> s@[i + m] == pat@[m],
        decreases pat.len() - k,
    {
        if s[i + k] != pat[k] {
            assert(s@.subrange(i as int, i + pat.len())[k as int] != pat@[k as int]);
            return false;
        }
        k = k + 1;
    }
    assert(s@.subrange(i as int, i + pat.len()) =~= pat@);
    true
}

/// `template` with every occurrence of `key` replaced by `value` (`str::replace`).
pub fn fill(template: &str, key: &str, value: &str) -> (r: String)
    requires
        key@.len() > 0,
    ensures
        r@ == replace_all(template@, key@, value@),
{
    let s = chars_of(template);
    let p = chars_of(key);
    let mut out: Vec<char> = Vec::new();
    let mut i: usize = 0;
    assert(s@.skip(0) =~= s@);
    while i < s.len()
        invariant
            i <= s.len(),
            s@ == template@,
            p@ == key@,
            p@.len() > 0,
            replace_all(s@, p@, value@) == out@ + replace_all(s@.skip(i as int), p@, value@),
        decreases s.len() - i,
    {
        let ghost t = s@.skip(i as int);
        let ghost before = out@;
        if occurs_at(&s, i, &p) {
            proof {
                assert(t.take(p@.len() as int) =~= s@.subrange(i as int, i + p@.len()));
                assert(t.skip(p@.len() as int) =~= s@.skip(i + p@.len()));
                assert(replace_all(t, p@, value@) == value@ + replace_all(t.skip(p@.len() as int), p@, value@));
            }
            append_chars(&mut out, value);
            assert(before + (value@ + replace_all(s@.skip(i + p@.len()), p@, value@)) =~= out@ + replace_all(
                s@.skip(i + p@.len()),
                p@,
                value@,
            ));
            i = i + p.len();
        } else {
            proof {
                if i + p@.len() <= s@.len() {
                    assert(t.take(p@.len() as int) =~= s@.subrange(i as int, i + p@.len()));
                }
                assert(t.skip(1) =~= s@.skip(i + 1));
                assert(replace_all(t, p@, value@) == seq![t[0]] + replace_all(t.skip(1), p@, value@));
            }
            out.push(s[i]);
            assert(before + (seq![t[0]] + replace_all(s@.skip(i + 1), p@, value@)) =~= out@ + replace_all(
                s@.skip(i + 1),
                p@,
                value@,
            ));
            i = i + 1;
        }
    }
    assert(out@ + replace_all(s@.skip(i as int), p@, value@) =~= out@);
    string_of(&out)
}

/// `a` comes strictly before `b` in lexicographic order of characters (a proper prefix comes
/// first). On UTF-8 text this is the byte order that `str`'s `Ord` uses.
pub open spec fn lex_lt(a: Seq<char>, b: Seq<char>) -> bool
    decreases a.len(),
{
    if b.len() == 0 {
        false
    } else if a.len() == 0 {
        true
    } else if a[0] != b[0] {
        (a[0] as u32) < (b[0] as u32)
    } else {
        lex_lt(a.skip(1), b.skip(1))
    }
}

/// No text comes before itself.
pub proof fn lemma_lex_irreflexive(a: Seq<char>)
    ensures
        !lex_lt(a, a),
    decreases a.len(),
{
    if a.len() > 0 {
        lemma_lex_irreflexive(a.skip(1));
    }
}

/// The order is transitive.
pub proof fn lemma_lex_transitive(a: Seq<char>, b: Seq<char>, c: Seq<char>)
    requires
        lex_lt(a, b),
        lex_lt(b, c),
    ensures
        lex_lt(a, c),
    decreases a.len(),
{
    if a.len() > 0 && b.len() > 0 && c.len() > 0 && a[0] == b[0] && b[0] == c[0] {
        lemma_lex_transitive(a.skip(1), b.skip(1), c.skip(1));
    }
}

/// Whether `a` comes strictly before `b` (see `lex_lt`).
pub fn text_lt(a: &str, b: &str) -> (r: bool)
    ensures
        r == lex_lt(a@, b@),
{
    let x = chars_of(a);
    let y = chars_of(b);
    let mut i: usize = 0;
    assert(a@.skip(0) =~= a@);
    assert(b@.skip(0) =~= b@);
    while i < x.len() && i < y.len()
        invariant
            i <= x.len(),
            i <= y.len(),
            x@ == a@,
            y@ == b@,
            x@.take(i as int) == y@.take(i as int),
            lex_lt(a@, b@) == lex_lt(a@.skip(i as int), b@.skip(i as int)),
        decreases x.len() - i,
    {
        let ghost xs = a@.skip(i as int);
        let ghost ys = b@.skip(i as int);
        assert(xs[0] == x@[i as int] && ys[0] == y@[i as int]);
        if x[i] != y[i] {
            return (x[i] as u32) < (y[i] as u32);
        }
        assert(xs.skip(1) =~= a@.skip(i + 1));
        assert(ys.skip(1) =~= b@.skip(i + 1));
        assert(x@.take(i + 1) =~= y@.take(i + 1)) by {
            assert(x@.take(i + 1) =~= x@.take(i as int).push(x@[i as int]));
            assert(y@.take(i + 1) =~= y@.take(i as int).push(y@[i as int]));
        }
        i = i + 1;
    }
    proof {
        assert(a@.skip(i as int).len() == 0 || b@.skip(i as int).len() == 0);
    }
    i < y.len()
}

/// The decimal text of `n` (`u64::to_string`).
pub fn u64_to_decimal(n: u64) -> (r: String)
    ensures
        r@ == decimal(n as nat),
{
    let mut digits: Vec<char> = Vec::new();
    push_decimal(&mut digits, n);
    string_of(&digits)
}

/// Whether `s` is exactly the text `lit`.
pub fn text_is(s: &str, lit: &str) -> (r: bool)
    ensures
        r == (s@ == lit@),
{
    let a = chars_of(s);
    let b = chars_of(lit);
    if a.len() != b.len() {
        return false;
    }
    let mut i: usize = 0;
    while i < a.len()
        invariant
            a@ == s@,
            b@ == lit@,
            a.len() == b.len(),
            i <= a.len(),
            forall|k: int| 0 <= k < i ==> a@[k] == b@[k],
        decreases a.len() - i,
    {
        if a[i] != b[i] {
            return false;
        }
        i = i + 1;
    }
    assert(a@ =~= b@);
    true
}

pub proof fn lemma_decimal_len_pos(n: nat)
    ensures
        decimal(n).len() >= 1,
    decreases n,
{
    if n >= 10 {
        lemma_decimal_len_pos(n / 10);
    }
}

fn push_zero_padded_nat(out: &mut Vec<char>, n: u64, w: usize)
    ensures
        final(out)@ == old(out)@ + pad_zero(decimal(n as nat), w as int),
{
    let mut digits: Vec<char> = Vec::new();
    push_decimal(&mut digits, n);
    assert(digits@ == decimal(n as nat));
    let mut k: usize = digits.len();
    let ghost start = out@;
    while k < w
        invariant
            digits@ == decimal(n as nat),
            digits.len() <= k,
            k <= w || k == digits.len(),
            out@ == start + zeros((k - digits.len()) as int),
        decreases w - k,
    {
        out.push('0');
        assert(zeros((k + 1 - digits.len()) as int) == zeros((k - digits.len()) as int).push('0'));
        k = k + 1;
    }
    let mut i: usize = 0;
    let ghost mid = out@;
    while i < digits.len()
        invariant
            0 <= i <= digits.len(),
            out@ == mid + digits@.take(i as int),
        decreases digits.len() - i,
    {
        out.push(digits[i]);
        assert(digits@.take(i + 1) == digits@.take(i as int).push(digits@[i as int]));
        i = i + 1;
    }
    assert(digits@.take(digits.len() as int) == digits@);
    proof {
        if digits.len() < w {
            assert(k == w);
        } else {
            assert(zeros(0) =~= Seq::<char>::empty());
            assert(zeros((k - digits.len()) as int) =~= Seq::<char>::empty());
        }
        assert(out@ =~= start + pad_zero(decimal(n as nat), w as int));
    }
}

/// Appends `format!("{:0w$}", v)` (sign, then zero-padded digits).
pub fn push_zero_padded(out: &mut Vec<char>, v: i64, w: usize)
    ensures
        final(out)@ == old(out)@ + fmt_zero_padded(v as int, w as int),
{
    if v < 0 {
        out.push('-');
        let mag: u64 = if v == i64::MIN { 9223372036854775808u64 } else { (-v) as u64 };
        let wd: usize = if w > 0 { w - 1 } else { 0 };
        let ghost mid = out@;
        push_zero_padded_nat(out, mag, wd);
        proof {
            lemma_decimal_len_pos(mag as nat);
            assert(pad_zero(decimal(mag as nat), wd as int) == pad_zero(decimal(mag as nat), w - 1));
        }
    } else {
        push_zero_padded_nat(out, v as u64, w);
    }
}

pub proof fn lemma_digit_char(k: nat)
    requires
        k < 10,
    ensures
        (digit_char(k) as u32) as int == k + 48,
        is_digit(digit_char(k)),
{
    assert(((k + 48) as u32) as char as u32 == (k + 48) as u32);
}

pub proof fn lemma_digits_value_decimal(n: nat)
    ensures
        digits_value(decimal(n)) == n,
        all_digits(decimal(n)),
    decreases n,
{
    lemma_digit_char(n % 10);
    if n >= 10 {
        lemma_digits_value_decimal(n / 10);
        let d = decimal(n / 10).push(digit_char(n % 10));
        assert(decimal(n) == d);
        assert(d.drop_last() == decimal(n / 10));
        assert(d.last() == digit_char(n % 10));
        assert(digits_value(d) == digits_value(d.drop_last()) * 10 + ((d.last() as u32) - ('0' as u32)) as nat);
        assert(digits_value(d) == (n / 10) * 10 + n % 10);
        assert forall|i: int| 0 <= i < d.len() implies is_digit(#[trigger] d[i]) by {
            if i < d.len() - 1 {
                assert(d[i] == decimal(n / 10)[i]);
            }
        }
    } else {
        let d = decimal(n);
        assert(d == seq![digit_char(n)]);
        assert(d.drop_last() =~= Seq::<char>::empty());
        assert(digits_value(d) == digits_value(d.drop_last()) * 10 + ((d.last() as u32) - ('0' as u32)) as nat);
    }
}

pub proof fn lemma_digits_value_zeros_prefix(k: int, s: Seq<char>)
    ensures
        digits_value(zeros(k) + s) == digits_value(s),
    decreases s.len(), if k > 0 { k } else { 0 },
{
    if s.len() > 0 {
        assert((zeros(k) + s).drop_last() == zeros(k) + s.drop_last());
        lemma_digits_value_zeros_prefix(k, s.drop_last());
    } else {
        assert(zeros(k) + s == zeros(k));
        if k > 0 {
            assert(zeros(k).drop_last() == zeros(k - 1));
            lemma_digits_value_zeros_prefix(k - 1, s);
            assert(zeros(k - 1) + s == zeros(k - 1));
        } else {
            assert(zeros(k) =~= Seq::<char>::empty());
        }
    }
}

/// Reading back a zero-padded non-negative number gives the number.
pub proof fn lemma_parse_padded(n: nat, w: int)
    requires
        n <= i64::MAX,
    ensures
        parse_i64(pad_zero(decimal(n), w)) == Some(n as int),
        all_digits(pad_zero(decimal(n), w)),
        pad_zero(decimal(n), w).len() >= 1,
{
    lemma_digits_value_decimal(n);
    lemma_decimal_len_pos(n);
    let p = pad_zero(decimal(n), w);
    if decimal(n).len() < w {
        lemma_digits_value_zeros_prefix(w - decimal(n).len(), decimal(n));
        assert forall|i: int| 0 <= i < p.len() implies is_digit(#[trigger] p[i]) by {
            if i >= w - decimal(n).len() {
                assert(p[i] == decimal(n)[i - (w - decimal(n).len())]);
            }
        }
    }
    assert(is_digit(p[0]));
}


/// The pieces of `s` between occurrences of `sep` (`str::split` with a character pattern).
pub open spec fn split_on(s: Seq<char>, sep: char) -> Seq<Seq<char>>
    decreases s.len(),
{
    if s.len() == 0 {
        seq![Seq::<char>::empty()]
    } else {
        let p = split_on(s.drop_last(), sep);
        if s.last() == sep {
            p.push(Seq::<char>::empty())
        } else {
            p.update(p.len() - 1, p.last().push(s.last()))
        }
    }
}

pub proof fn lemma_split_on_len(s: Seq<char>, sep: char)
    ensures
        split_on(s, sep).len() >= 1,
    decreases s.len(),
{
    if s.len() > 0 {
        lemma_split_on_len(s.drop_last(), sep);
    }
}

/// A piece without the separator splits to itself, appended after a separator it adds one piece.
pub proof fn lemma_split_on_append(s: Seq<char>, t: Seq<char>, sep: char)
    requires
        !t.contains(sep),
    ensures
        split_on(s + seq![sep] + t, sep) == split_on(s, sep).push(t),
    decreases t.len(),
{
    if t.len() == 0 {
        assert(s + seq![sep] + t == (s + seq![sep]));
        assert((s + seq![sep]).drop_last() == s);
        assert((s + seq![sep]).last() == sep);
        assert(t =~= Seq::<char>::empty());
    } else {
        let t2 = t.drop_last();
        assert(!t2.contains(sep)) by {
            if t2.contains(sep) {
                let k = choose|k: int| 0 <= k < t2.len() && t2[k] == sep;
                assert(t[k] == sep);
            }
        }
        lemma_split_on_append(s, t2, sep);
        assert((s + seq![sep] + t).drop_last() == s + seq![sep] + t2);
        assert(t.last() != sep) by {
            assert(t[t.len() - 1] == t.last());
        }
        lemma_split_on_len(s, sep);
        assert(t2.push(t.last()) == t);
        assert((s + seq![sep] + t).last() == t.last());
        let p = split_on(s, sep).push(t2);
        assert(split_on(s + seq![sep] + t2, sep) == p);
        assert(split_on(s + seq![sep] + t, sep) == p.update(p.len() - 1, p.last().push(t.last())));
        assert(p.update(p.len() - 1, p.last().push(t.last())) =~= split_on(s, sep).push(t));
    }
}

pub proof fn lemma_split_on_single(t: Seq<char>, sep: char)
    requires
        !t.contains(sep),
    ensures
        split_on(t, sep) == seq![t],
    decreases t.len(),
{
    if t.len() > 0 {
        let t2 = t.drop_last();
        assert(!t2.contains(sep)) by {
            if t2.contains(sep) {
                let k = choose|k: int| 0 <= k < t2.len() && t2[k] == sep;
                assert(t[k] == sep);
            }
        }
        lemma_split_on_single(t2, sep);
        assert(t[t.len() - 1] != sep);
        assert(t2.push(t.last()) == t);
    } else {
        assert(t =~= Seq::<char>::empty());
    }
}

/// The character sequences held by a vector of character vectors.
pub open spec fn char_views(v: Seq<Vec<char>>) -> Seq<Seq<char>> {
    v.map_values(|x: Vec<char>| x@)
}

/// Splits the characters of `s` at every `sep`.
pub fn split_chars(s: &Vec<char>, sep: char) -> (r: Vec<Vec<char>>)
    ensures
        char_views(r@) == split_on(s@, sep),
{
    let mut parts: Vec<Vec<char>> = Vec::new();
    let mut cur: Vec<char> = Vec::new();
    let mut i: usize = 0;
    assert(s@.take(0) =~= Seq::<char>::empty());
    assert(char_views(parts@).push(cur@) =~= split_on(s@.take(0), sep));
    while i < s.len()
        invariant
            i <= s.len(),
            char_views(parts@).push(cur@) == split_on(s@.take(i as int), sep),
        decreases s.len() - i,
    {
        let c = s[i];
        let ghost before = char_views(parts@).push(cur@);
        assert(s@.take(i + 1).drop_last() == s@.take(i as int));
        assert(s@.take(i + 1).last() == c);
        if c == sep {
            let ghost old_parts = parts@;
            parts.push(cur);
            cur = Vec::new();
            assert(char_views(parts@) =~= char_views(old_parts).push(before.last()));
            assert(char_views(parts@).push(cur@) =~= before.push(Seq::<char>::empty()));
        } else {
            cur.push(c);
            assert(char_views(parts@).push(cur@) =~= before.update(
                before.len() - 1,
                before.last().push(c),
            ));
        }
        i = i + 1;
    }
    assert(s@.take(s.len() as int) == s@);
    let ghost old_parts = parts@;
    let ghost last = cur@;
    parts.push(cur);
    assert(char_views(parts@) =~= char_views(old_parts).push(last));
    parts
}


/// Text that neither starts nor ends with white space is its own trim.
pub proof fn lemma_trim_noop(s: Seq<char>)
    requires
        s.len() > 0 ==> !is_ws(s[0]) && !is_ws(s.last()),
    ensures
        trim(s) == s,
{
    assert(trim_start(s) == s);
    if s.len() > 0 {
        assert(s[s.len() - 1] == s.last());
    }
    assert(trim_end(s) == s);
}

/// Digits are not white space and not a separator.
pub proof fn lemma_digits_plain(ds: Seq<char>, sep: char)
    requires
        all_digits(ds),
        !is_digit(sep),
    ensures
        !ds.contains(sep),
        forall|i: int| 0 <= i < ds.len() ==> !is_ws(#[trigger] ds[i]),
{
    if ds.contains(sep) {
        let k = choose|k: int| 0 <= k < ds.len() && ds[k] == sep;
        assert(is_digit(ds[k]));
    }
    assert forall|i: int| 0 <= i < ds.len() implies !is_ws(#[trigger] ds[i]) by {
        assert(is_digit(ds[i]));
    }
}

} // verus!
