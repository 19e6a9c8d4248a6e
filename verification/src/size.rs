//! Sizes typed in the column size filter: digits with optional separators and a binary
//! K/KB/M/MB/G/GB suffix, read exactly as decimal numbers.
use vstd::prelude::*;
use vstd::arithmetic::div_mod::{lemma_div_denominator, lemma_hoist_over_denominator};
use vstd::arithmetic::mul::lemma_mul_nonnegative;
use crate::text::{
    all_digits, ascii_lower, char_ascii_lower, chars_of, decimal, digits_value, is_digit, is_ws,
    lemma_decimal_len_pos, lemma_digits_value_decimal, lemma_trim_noop, trim, trim_chars,
};

verus! {

/// `10^k`.
pub open spec fn pow10(k: nat) -> nat
    decreases k,
{
    if k == 0 {
        1
    } else {
        10 * pow10((k - 1) as nat)
    }
}

/// `s` without the separators `,`, `_` and space.
pub open spec fn drop_size_separators(s: Seq<char>) -> Seq<char>
    decreases s.len(),
{
    if s.len() == 0 {
        s
    } else {
        let p = drop_size_separators(s.drop_last());
        let c = s.last();
        if c == ',' || c == '_' || c == ' ' {
            p
        } else {
            p.push(c)
        }
    }
}

/// ASCII lower-casing of every character.
pub open spec fn lower_seq(s: Seq<char>) -> Seq<char> {
    s.map_values(|c: char| ascii_lower(c))
}

/// The normalised text of a size: trimmed, lower-cased, without separators.
pub open spec fn size_text(text: Seq<char>) -> Seq<char> {
    drop_size_separators(lower_seq(trim(text)))
}

pub open spec fn ends_with(s: Seq<char>, suf: Seq<char>) -> bool {
    s.len() >= suf.len() && s.subrange(s.len() - suf.len(), s.len() as int) == suf
}

pub open spec fn gib() -> nat {
    1073741824
}

pub open spec fn mib() -> nat {
    1048576
}

/// The number part and the multiplier given by the suffix (`gb`/`g`, `mb`/`m`, `kb`/`k`).
pub open spec fn size_split(t: Seq<char>) -> (Seq<char>, nat) {
    if ends_with(t, seq!['g', 'b']) {
        (t.take(t.len() - 2), gib())
    } else if ends_with(t, seq!['g']) {
        (t.drop_last(), gib())
    } else if ends_with(t, seq!['m', 'b']) {
        (t.take(t.len() - 2), mib())
    } else if ends_with(t, seq!['m']) {
        (t.drop_last(), mib())
    } else if ends_with(t, seq!['k', 'b']) {
        (t.take(t.len() - 2), 1024)
    } else if ends_with(t, seq!['k']) {
        (t.drop_last(), 1024)
    } else {
        (t, 1)
    }
}

/// `body` as integer digits and optional fraction digits after one `.`.
pub open spec fn decimal_parts(body: Seq<char>) -> Option<(Seq<char>, Seq<char>)> {
    if all_digits(body) {
        Some((body, Seq::<char>::empty()))
    } else if exists|k: int|
        0 <= k < body.len() && body[k] == '.' && all_digits(body.take(k)) && all_digits(
            body.skip(k + 1),
        ) {
        let k = choose|k: int|
            0 <= k < body.len() && body[k] == '.' && all_digits(body.take(k)) && all_digits(
                body.skip(k + 1),
            );
        Some((body.take(k), body.skip(k + 1)))
    } else {
        None
    }
}

/// The value of `ip.fp` times `mult`, rounded down.
pub open spec fn scaled_value(ip: Seq<char>, fp: Seq<char>, mult: nat) -> nat {
    ((digits_value(ip) * pow10(fp.len()) + digits_value(fp)) * mult / pow10(fp.len())) as nat
}

/// What `parse_size` gives for `text`: after trimming, lower-casing and dropping `,`, `_` and
/// spaces, an optional sign, decimal digits with an optional fraction and an optional suffix;
/// the value times the suffix multiplier, rounded down and capped at `u64::MAX`. Empty text,
/// anything else, and negative values are `None`.
pub open spec fn parse_size_spec(text: Seq<char>) -> Option<u64> {
    let t = size_text(text);
    let (num, mult) = size_split(t);
    let neg = num.len() > 0 && num[0] == '-';
    let body = if num.len() > 0 && (num[0] == '-' || num[0] == '+') {
        num.drop_first()
    } else {
        num
    };
    if t.len() == 0 {
        None
    } else {
        match decimal_parts(body) {
            Some((ip, fp)) => if ip.len() + fp.len() == 0 {
                None
            } else if neg && (digits_value(ip) > 0 || digits_value(fp) > 0) {
                None
            } else {
                let v = scaled_value(ip, fp, mult);
                Some(if v > u64::MAX { u64::MAX } else { v as u64 })
            },
            None => None,
        }
    }
}


proof fn lemma_pow10_pos(k: nat)
    ensures
        pow10(k) >= 1,
    decreases k,
{
    if k > 0 {
        lemma_pow10_pos((k - 1) as nat);
    }
}

proof fn lemma_digits_value_bound(s: Seq<char>)
    requires
        all_digits(s),
    ensures
        digits_value(s) < pow10(s.len()),
    decreases s.len(),
{
    if s.len() > 0 {
        let p = s.drop_last();
        assert(all_digits(p)) by {
            assert forall|i: int| 0 <= i < p.len() implies is_digit(#[trigger] p[i]) by {
                assert(p[i] == s[i]);
            }
        }
        lemma_digits_value_bound(p);
        assert(is_digit(s[s.len() - 1]));
        let dl = ((s.last() as u32) - ('0' as u32)) as nat;
        assert(dl <= 9);
        assert(digits_value(s) == digits_value(p) * 10 + dl);
        assert(pow10(s.len()) == 10 * pow10(p.len()));
    }
}

#[verifier::spinoff_prover]
proof fn lemma_digits_value_cons(d: char, s: Seq<char>)
    requires
        is_digit(d),
    ensures
        digits_value(seq![d] + s) == ((d as u32) - ('0' as u32)) as nat * pow10(s.len())
            + digits_value(s),
    decreases s.len(),
{
    let dd = ((d as u32) - ('0' as u32)) as nat;
    if s.len() == 0 {
        assert(seq![d] + s == seq![d]);
        assert(seq![d].drop_last() =~= Seq::<char>::empty());
        assert(pow10(0) == 1);
        assert(digits_value(seq![d]) == digits_value(seq![d].drop_last()) * 10 + dd);
        assert(digits_value(s) == 0);
    } else {
        let p = s.drop_last();
        let ds = seq![d] + s;
        assert(ds.drop_last() == seq![d] + p);
        assert(ds.last() == s.last());
        lemma_digits_value_cons(d, p);
        let a = digits_value(p);
        let pw = pow10(p.len());
        let lv = ((s.last() as u32) - ('0' as u32)) as nat;
        assert(digits_value(seq![d] + p) == dd * pw + a);
        assert(digits_value(ds) == digits_value(seq![d] + p) * 10 + lv);
        assert(digits_value(s) == a * 10 + lv);
        assert(pow10(s.len()) == 10 * pw);
        assert((dd * pw + a) * 10 + lv == dd * (10 * pw) + (a * 10 + lv)) by (nonlinear_arith);
    }
}

/// `floor(mult * 0.fp)`: the fraction digits times the multiplier, rounded down, computed
/// digit by digit from the right so that no intermediate value grows beyond `mult`.
fn frac_scaled(fp: &Vec<char>, mult: u64) -> (r: u64)
    requires
        all_digits(fp@),
        1 <= mult <= 1073741824,
    ensures
        r as int == (mult * digits_value(fp@)) / pow10(fp@.len()) as int,
        r < mult,
{
    let n = fp.len();
    let mut i: usize = n;
    let mut c: u64 = 0;
    assert(fp@.skip(n as int) =~= Seq::<char>::empty());
    while i > 0
        invariant
            i <= n,
            n == fp.len(),
            all_digits(fp@),
            1 <= mult <= 1073741824,
            c as int == (mult * digits_value(fp@.skip(i as int))) / pow10((n - i) as nat) as int,
            c < mult,
        decreases i,
    {
        let ch = fp[i - 1];
        assert(is_digit(fp@[i - 1]));
        let d: u64 = ((ch as u32) - ('0' as u32)) as u64;
        let ghost s = fp@.skip(i as int);
        let ghost j = (n - i) as nat;
        assert(fp@.skip(i - 1) == seq![ch] + s);
        proof {
            lemma_digits_value_cons(ch, s);
            lemma_pow10_pos(j);
            let x = digits_value(s);
            let pw = pow10(j) as int;
            assert(s.len() == j);
            // floor(mult * (d * 10^j + x) / 10^(j+1)) == floor((d * mult + floor(mult * x / 10^j)) / 10)
            let a = (mult as int) * (d as int) * pw + (mult as int) * (x as int);
            assert(digits_value(seq![ch] + s) == (d as int) * pw + x);
            assert((mult as int) * digits_value(seq![ch] + s) == a) by (nonlinear_arith)
                requires
                    digits_value(seq![ch] + s) == (d as int) * pw + x,
                    a == (mult as int) * (d as int) * pw + (mult as int) * (x as int),
            ;
            lemma_mul_nonnegative(mult as int, x as int);
            lemma_hoist_over_denominator((mult as int) * (x as int), (mult as int) * (d as int), pw as nat);
            assert((mult as int) * (d as int) * pw == (mult as int) * (d as int) * pw);
            assert(a / pw == (mult as int) * (x as int) / pw + (mult as int) * (d as int));
            assert(a >= 0) by (nonlinear_arith)
                requires
                    a == (mult as int) * (d as int) * pw + (mult as int) * (x as int),
                    mult >= 1,
                    d >= 0,
                    pw >= 1,
                    x >= 0,
            ;
            lemma_div_denominator(a, pw, 10);
            assert(pow10(j + 1) == 10 * pow10(j));
            assert(pw * 10 == 10 * pw);
        }
        assert(d <= 9);
        assert(d * mult <= 9 * 1073741824) by (nonlinear_arith)
            requires
                d <= 9,
                mult <= 1073741824,
        ;
        assert((d * mult + c) / 10 < mult) by (nonlinear_arith)
            requires
                d <= 9,
                c < mult,
        ;
        c = (d * mult + c) / 10;
        i = i - 1;
    }
    assert(fp@.skip(0) == fp@);
    c
}


/// The trimmed, lower-cased text of a size without `,`, `_` and spaces.
fn size_text_of(text: &str) -> (r: Vec<char>)
    ensures
        r@ == size_text(text@),
{
    let cs = chars_of(text);
    let t = trim_chars(&cs);
    let ghost low = lower_seq(t@);
    let mut out: Vec<char> = Vec::new();
    let mut i: usize = 0;
    assert(low.take(0) =~= Seq::<char>::empty());
    while i < t.len()
        invariant
            i <= t.len(),
            low == lower_seq(t@),
            out@ == drop_size_separators(low.take(i as int)),
        decreases t.len() - i,
    {
        let c = char_ascii_lower(t[i]);
        assert(low.take(i + 1).drop_last() == low.take(i as int));
        assert(low.take(i + 1).last() == c);
        if !(c == ',' || c == '_' || c == ' ') {
            out.push(c);
        }
        i = i + 1;
    }
    assert(low.take(t.len() as int) == low);
    out
}

fn ends_with_chars(t: &Vec<char>, a: char, b: char) -> (r: bool)
    ensures
        r == ends_with(t@, seq![a, b]),
{
    let n = t.len();
    if n >= 2 && t[n - 2] == a && t[n - 1] == b {
        assert(t@.subrange(n - 2, n as int) =~= seq![a, b]);
        true
    } else {
        proof {
            if n >= 2 && t@.subrange(n - 2, n as int) == seq![a, b] {
                assert(t@.subrange(n - 2, n as int)[0] == t@[n - 2]);
                assert(t@.subrange(n - 2, n as int)[1] == t@[n - 1]);
            }
        }
        false
    }
}

fn ends_with_char(t: &Vec<char>, a: char) -> (r: bool)
    ensures
        r == ends_with(t@, seq![a]),
{
    let n = t.len();
    if n >= 1 && t[n - 1] == a {
        assert(t@.subrange(n - 1, n as int) =~= seq![a]);
        true
    } else {
        proof {
            if n >= 1 && t@.subrange(n - 1, n as int) == seq![a] {
                assert(t@.subrange(n - 1, n as int)[0] == t@[n - 1]);
            }
        }
        false
    }
}

fn take_chars(t: &Vec<char>, k: usize) -> (r: Vec<char>)
    requires
        k <= t.len(),
    ensures
        r@ == t@.take(k as int),
{
    let mut out: Vec<char> = Vec::new();
    let mut i: usize = 0;
    while i < k
        invariant
            i <= k <= t.len(),
            out@ == t@.take(i as int),
        decreases k - i,
    {
        out.push(t[i]);
        assert(t@.take(i + 1) == t@.take(i as int).push(t@[i as int]));
        i = i + 1;
    }
    out
}

/// Splits the number part from its size suffix.
fn split_size_suffix(t: &Vec<char>) -> (r: (Vec<char>, u64))
    ensures
        (r.0@, r.1 as nat) == size_split(t@),
{
    let n = t.len();
    if ends_with_chars(t, 'g', 'b') {
        (take_chars(t, n - 2), 1073741824)
    } else if ends_with_char(t, 'g') {
        (take_chars(t, n - 1), 1073741824)
    } else if ends_with_chars(t, 'm', 'b') {
        (take_chars(t, n - 2), 1048576)
    } else if ends_with_char(t, 'm') {
        (take_chars(t, n - 1), 1048576)
    } else if ends_with_chars(t, 'k', 'b') {
        (take_chars(t, n - 2), 1024)
    } else if ends_with_char(t, 'k') {
        (take_chars(t, n - 1), 1024)
    } else {
        (take_chars(t, n), 1)
    }
}


fn skip_chars(t: &Vec<char>, k: usize) -> (r: Vec<char>)
    requires
        k <= t.len(),
    ensures
        r@ == t@.skip(k as int),
{
    let mut out: Vec<char> = Vec::new();
    let mut i: usize = k;
    while i < t.len()
        invariant
            k <= i <= t.len(),
            out@ == t@.subrange(k as int, i as int),
        decreases t.len() - i,
    {
        out.push(t[i]);
        assert(t@.subrange(k as int, i + 1) == t@.subrange(k as int, i as int).push(t@[i as int]));
        i = i + 1;
    }
    assert(t@.subrange(k as int, t.len() as int) == t@.skip(k as int));
    out
}

/// Splits `body` into integer digits and fraction digits around a single `.`.
fn split_decimal(body: &Vec<char>) -> (r: Option<(Vec<char>, Vec<char>)>)
    ensures
        match r {
            Some((ip, fp)) => decimal_parts(body@) == Some((ip@, fp@)),
            None => decimal_parts(body@) is None,
        },
{
    let n = body.len();
    let mut k: usize = 0;
    while k < n && '0' <= body[k] && body[k] <= '9'
        invariant
            k <= n == body.len(),
            forall|i: int| 0 <= i < k ==> is_digit(#[trigger] body@[i]),
        decreases n - k,
    {
        k = k + 1;
    }
    if k == n {
        assert(all_digits(body@));
        let e: Vec<char> = Vec::new();
        assert(e@ =~= Seq::<char>::empty());
        return Some((take_chars(body, n), e));
    }
    assert(!is_digit(body@[k as int]));
    assert(!all_digits(body@));
    if body[k] != '.' {
        assert forall|j: int|
            0 <= j < body@.len() && body@[j] == '.' && all_digits(body@.take(j)) implies !all_digits(
            body@.skip(j + 1),
        ) by {
            if j > k {
                assert(body@.take(j)[k as int] == body@[k as int]);
            } else {
                assert(j < k);
                assert(is_digit(body@[j]));
            }
            assert(body@.skip(j + 1)[k - j - 1] == body@[k as int]);
        }
        return None;
    }
    let mut p: usize = k + 1;
    while p < n && '0' <= body[p] && body[p] <= '9'
        invariant
            k < p <= n == body.len(),
            forall|i: int| k < i < p ==> is_digit(#[trigger] body@[i]),
        decreases n - p,
    {
        p = p + 1;
    }
    if p < n {
        assert(!is_digit(body@[p as int]));
        assert forall|j: int|
            0 <= j < body@.len() && body@[j] == '.' && all_digits(body@.take(j)) implies !all_digits(
            body@.skip(j + 1),
        ) by {
            if j > k {
                assert(body@.take(j)[k as int] == body@[k as int]);
                assert(!is_digit(body@[k as int]));
            } else if j < k {
                assert(is_digit(body@[j]));
            } else {
                assert(body@.skip(j + 1)[p - j - 1] == body@[p as int]);
            }
        }
        return None;
    }
    let ip = take_chars(body, k);
    let fp = skip_chars(body, k + 1);
    assert(all_digits(body@.take(k as int))) by {
        assert forall|i: int| 0 <= i < k implies is_digit(#[trigger] body@.take(k as int)[i]) by {
            assert(body@.take(k as int)[i] == body@[i]);
        }
    }
    assert(all_digits(body@.skip(k + 1))) by {
        assert forall|i: int| 0 <= i < body@.skip(k + 1).len() implies is_digit(
            #[trigger] body@.skip(k + 1)[i],
        ) by {
            assert(body@.skip(k + 1)[i] == body@[i + k + 1]);
        }
    }
    let ghost kk = choose|j: int|
        0 <= j < body@.len() && body@[j] == '.' && all_digits(body@.take(j)) && all_digits(
            body@.skip(j + 1),
        );
    proof {
        if kk < k {
            assert(is_digit(body@[kk]));
        } else if kk > k {
            assert(body@.take(kk)[k as int] == body@[k as int]);
            assert(!is_digit(body@[k as int]));
        }
    }
    Some((ip, fp))
}

proof fn lemma_digits_value_zero(s: Seq<char>)
    requires
        all_digits(s),
    ensures
        digits_value(s) == 0 <==> forall|i: int| 0 <= i < s.len() ==> #[trigger] s[i] == '0',
    decreases s.len(),
{
    if s.len() > 0 {
        let p = s.drop_last();
        assert(all_digits(p)) by {
            assert forall|i: int| 0 <= i < p.len() implies is_digit(#[trigger] p[i]) by {
                assert(p[i] == s[i]);
            }
        }
        lemma_digits_value_zero(p);
        assert(is_digit(s[s.len() - 1]));
        if forall|i: int| 0 <= i < s.len() ==> #[trigger] s[i] == '0' {
            assert forall|i: int| 0 <= i < p.len() implies #[trigger] p[i] == '0' by {
                assert(p[i] == s[i]);
            }
            assert(s[s.len() - 1] == '0');
        }
        if digits_value(s) == 0 {
            assert forall|i: int| 0 <= i < s.len() implies #[trigger] s[i] == '0' by {
                if i < s.len() - 1 {
                    assert(p[i] == s[i]);
                }
            }
        }
    }
}

/// Decimal value of the digits, or `None` when it exceeds `u64::MAX`.
fn digits_value_u64(ds: &Vec<char>) -> (r: Option<u64>)
    requires
        all_digits(ds@),
    ensures
        r matches Some(v) ==> v as nat == digits_value(ds@),
        r is None ==> digits_value(ds@) > u64::MAX,
{
    let mut acc: u64 = 0;
    let mut i: usize = 0;
    while i < ds.len()
        invariant
            i <= ds.len(),
            all_digits(ds@),
            acc as nat == digits_value(ds@.take(i as int)),
        decreases ds.len() - i,
    {
        let ghost pre = ds@.take(i as int);
        assert(ds@.take(i + 1).drop_last() == pre);
        assert(ds@.take(i + 1).last() == ds@[i as int]);
        assert(is_digit(ds@[i as int]));
        let dv: u64 = ((ds[i] as u32) - ('0' as u32)) as u64;
        if acc > (u64::MAX - dv) / 10 {
            proof {
                assert(digits_value(ds@.take(i + 1)) > u64::MAX) by (nonlinear_arith)
                    requires
                        digits_value(ds@.take(i + 1)) == acc * 10 + dv,
                        acc > (u64::MAX - dv) / 10,
                        dv <= 9,
                ;
                lemma_digits_value_prefix_le(ds@, i + 1);
            }
            return None;
        }
        assert(acc * 10 + dv <= u64::MAX) by (nonlinear_arith)
            requires
                acc <= (u64::MAX - dv) / 10,
                dv <= 9,
        ;
        acc = acc * 10 + dv;
        i = i + 1;
    }
    assert(ds@.take(ds.len() as int) == ds@);
    Some(acc)
}

proof fn lemma_digits_value_prefix_le(ds: Seq<char>, i: int)
    requires
        0 <= i <= ds.len(),
        all_digits(ds),
    ensures
        digits_value(ds.take(i)) <= digits_value(ds),
    decreases ds.len() - i,
{
    if i < ds.len() {
        lemma_digits_value_prefix_le(ds, i + 1);
        assert(ds.take(i + 1).drop_last() == ds.take(i));
        assert(is_digit(ds[i]));
    } else {
        assert(ds.take(i) == ds);
    }
}

/// Parses a size typed by the user to bytes: digits (with `,`, `_` or space as separators, and an
/// optional fraction) and an optional `K`/`KB`/`M`/`MB`/`G`/`GB` suffix in base 1024, ignoring
/// case. Empty, invalid or negative text gives `None` (no limit on that end). For example `"10"`
/// is 10, `"2 KB"` is 2048 and `"1.5M"` is 1572864.
pub fn parse_size(text: &str) -> (r: Option<u64>)
    ensures
        r == parse_size_spec(text@),
{
    let t = size_text_of(text);
    if t.len() == 0 {
        return None;
    }
    let (num, mult) = split_size_suffix(&t);
    let neg = num.len() > 0 && num[0] == '-';
    let body = if num.len() > 0 && (num[0] == '-' || num[0] == '+') {
        skip_chars(&num, 1)
    } else {
        take_chars(&num, num.len())
    };
    assert(num@.skip(1) == num@.drop_first());
    assert(num@.take(num.len() as int) == num@);
    let (ip, fp) = match split_decimal(&body) {
        Some(parts) => parts,
        None => return None,
    };
    proof {
        let k = choose|j: int|
            0 <= j < body@.len() && body@[j] == '.' && all_digits(body@.take(j)) && all_digits(
                body@.skip(j + 1),
            );
        if !all_digits(body@) {
            assert(all_digits(ip@) && all_digits(fp@));
        } else {
            assert(fp@ =~= Seq::<char>::empty());
            assert(all_digits(fp@));
        }
    }
    if ip.len() + fp.len() == 0 {
        return None;
    }
    let mut fnz = false;
    let mut q: usize = 0;
    while q < fp.len()
        invariant
            q <= fp.len(),
            fnz == exists|i: int| 0 <= i < q && #[trigger] fp@[i] != '0',
        decreases fp.len() - q,
    {
        if fp[q] != '0' {
            fnz = true;
        }
        q = q + 1;
    }
    proof {
        lemma_digits_value_zero(fp@);
        lemma_digits_value_zero(ip@);
    }
    let ival = digits_value_u64(&ip);
    let ghost iv = digits_value(ip@);
    let ghost fv = digits_value(fp@);
    let ghost pw = pow10(fp@.len());
    proof {
        lemma_pow10_pos(fp@.len());
        lemma_digits_value_bound(fp@);
    }
    match ival {
        None => {
            if neg {
                return None;
            }
            proof {
                assert(iv * pw + fv >= iv * pw) by (nonlinear_arith)
                    requires
                        fv >= 0,
                ;
                assert((iv * pw + fv) * mult >= iv * pw) by (nonlinear_arith)
                    requires
                        mult >= 1,
                        iv >= 0,
                        pw >= 1,
                        fv >= 0,
                ;
                assert(((iv * pw + fv) * mult) / (pw as int) >= iv) by (nonlinear_arith)
                    requires
                        (iv * pw + fv) * mult >= iv * pw,
                        pw >= 1,
                        iv >= 0,
                ;
            }
            Some(u64::MAX)
        },
        Some(iv_exec) => {
            if neg && (iv_exec > 0 || fnz) {
                return None;
            }
            let f = frac_scaled(&fp, mult);
            proof {
                // (I * P + F) * mult / P == I * mult + (F * mult) / P
                assert((iv * pw + fv) * mult == (mult as int) * (fv as int) + ((iv as int) * (mult as int)) * pw)
                    by (nonlinear_arith);
                lemma_mul_nonnegative(mult as int, fv as int);
                lemma_hoist_over_denominator((mult as int) * (fv as int), (iv as int) * (mult as int), pw);
            }
            assert(iv_exec as u128 * mult as u128 <= 18446744073709551615u128 * 1073741824u128)
                by (nonlinear_arith)
                requires
                    iv_exec <= 18446744073709551615u64,
                    mult <= 1073741824,
            ;
            let total: u128 = iv_exec as u128 * mult as u128 + f as u128;
            Some(
                if total > 18446744073709551615u128 {
                    u64::MAX
                } else {
                    total as u64
                },
            )
        },
    }
}


proof fn lemma_drop_separators_noop(s: Seq<char>)
    requires
        all_digits(s),
    ensures
        drop_size_separators(s) == s,
    decreases s.len(),
{
    if s.len() > 0 {
        assert(all_digits(s.drop_last())) by {
            assert forall|i: int| 0 <= i < s.drop_last().len() implies is_digit(#[trigger] s.drop_last()[i]) by {
                assert(s.drop_last()[i] == s[i]);
            }
        }
        lemma_drop_separators_noop(s.drop_last());
        assert(is_digit(s[s.len() - 1]));
        assert(s.drop_last().push(s.last()) == s);
    }
}

/// A size written as its decimal number of bytes reads back as that size, and empty text
/// reads as no size.
pub proof fn lemma_parse_size_decimal(n: u64)
    ensures
        parse_size_spec(decimal(n as nat)) == Some(n),
        parse_size_spec(Seq::<char>::empty()) is None,
{
    let d = decimal(n as nat);
    lemma_digits_value_decimal(n as nat);
    lemma_decimal_len_pos(n as nat);
    assert(is_digit(d[0]));
    assert(is_digit(d[d.len() - 1]));
    assert(d.last() == d[d.len() - 1]);
    lemma_trim_noop(d);
    assert(lower_seq(d) =~= d) by {
        assert forall|i: int| 0 <= i < d.len() implies #[trigger] lower_seq(d)[i] == d[i] by {
            assert(is_digit(d[i]));
        }
    }
    lemma_drop_separators_noop(d);
    assert(size_text(d) == d);
    assert(!ends_with(d, seq!['g', 'b'])) by {
        if ends_with(d, seq!['g', 'b']) {
            assert(d.subrange(d.len() - 2, d.len() as int)[1] == d[d.len() - 1]);
        }
    }
    assert(!ends_with(d, seq!['m', 'b'])) by {
        if ends_with(d, seq!['m', 'b']) {
            assert(d.subrange(d.len() - 2, d.len() as int)[1] == d[d.len() - 1]);
        }
    }
    assert(!ends_with(d, seq!['k', 'b'])) by {
        if ends_with(d, seq!['k', 'b']) {
            assert(d.subrange(d.len() - 2, d.len() as int)[1] == d[d.len() - 1]);
        }
    }
    assert(!ends_with(d, seq!['g'])) by {
        if ends_with(d, seq!['g']) {
            assert(d.subrange(d.len() - 1, d.len() as int)[0] == d[d.len() - 1]);
        }
    }
    assert(!ends_with(d, seq!['m'])) by {
        if ends_with(d, seq!['m']) {
            assert(d.subrange(d.len() - 1, d.len() as int)[0] == d[d.len() - 1]);
        }
    }
    assert(!ends_with(d, seq!['k'])) by {
        if ends_with(d, seq!['k']) {
            assert(d.subrange(d.len() - 1, d.len() as int)[0] == d[d.len() - 1]);
        }
    }
    assert(size_split(d) == (d, 1nat));
    assert(decimal_parts(d) == Some((d, Seq::<char>::empty())));
    assert(digits_value(Seq::<char>::empty()) == 0);
    assert(pow10(0) == 1);
    assert(scaled_value(d, Seq::<char>::empty(), 1) == n);
    let e = Seq::<char>::empty();
    lemma_trim_noop(e);
    assert(lower_seq(e) =~= e);
    assert(drop_size_separators(e) == e);
}

/// The multiplier of a lower-cased size suffix (1 for none).
pub open spec fn suffix_mult(l: Seq<char>) -> nat {
    if l == seq!['k'] || l == seq!['k', 'b'] {
        1024
    } else if l == seq!['m'] || l == seq!['m', 'b'] {
        mib()
    } else if l == seq!['g'] || l == seq!['g', 'b'] {
        gib()
    } else {
        1
    }
}

/// A size suffix: K, KB, M, MB, G or GB in any letter case.
pub open spec fn is_size_suffix(sfx: Seq<char>) -> bool {
    let l = lower_seq(sfx);
    l == seq!['k'] || l == seq!['k', 'b'] || l == seq!['m'] || l == seq!['m', 'b'] || l == seq!['g']
        || l == seq!['g', 'b']
}

/// A size written as a decimal number followed by a binary suffix (K/KB = 1024, M/MB = 1024²,
/// G/GB = 1024³, in any letter case) reads back as that number times the multiplier.
pub proof fn lemma_parse_size_suffixed(n: u64, sfx: Seq<char>)
    requires
        n <= 1048576,
        is_size_suffix(sfx),
    ensures
        parse_size_spec(decimal(n as nat) + sfx) == Some((n * suffix_mult(lower_seq(sfx))) as u64),
{
    let d = decimal(n as nat);
    let l = lower_seq(sfx);
    let t = d + sfx;
    lemma_digits_value_decimal(n as nat);
    lemma_decimal_len_pos(n as nat);
    assert(is_digit(d[0]));
    assert(t[0] == d[0]);
    assert(sfx.len() == l.len());
    assert(t.last() == sfx.last());
    assert(ascii_lower(sfx.last()) == l.last());
    assert(!is_ws(t[0]));
    assert(!is_ws(t.last()));
    lemma_trim_noop(t);
    assert(lower_seq(d) =~= d) by {
        assert forall|i: int| 0 <= i < d.len() implies #[trigger] lower_seq(d)[i] == d[i] by {
            assert(is_digit(d[i]));
        }
    }
    let lt = d + l;
    assert(lower_seq(t) =~= lt) by {
        assert forall|i: int| 0 <= i < t.len() implies #[trigger] lower_seq(t)[i] == lt[i] by {
            if i < d.len() {
                assert(is_digit(d[i]));
            }
        }
    }
    lemma_drop_separators_noop(d);
    if l.len() == 1 {
        assert(lt.drop_last() =~= d);
        assert(lt.last() == l[0]);
        assert(drop_size_separators(lt) == drop_size_separators(d).push(l[0]));
        assert(d.push(l[0]) =~= lt);
    } else {
        let d1 = d.push(l[0]);
        assert(lt.drop_last() =~= d1);
        assert(d1.drop_last() =~= d);
        assert(lt.last() == l[1]);
        assert(d1.last() == l[0]);
        assert(drop_size_separators(d1) == drop_size_separators(d).push(l[0]));
        assert(drop_size_separators(lt) == drop_size_separators(d1).push(l[1]));
        assert(d1.push(l[1]) =~= lt);
    }
    assert(size_text(t) == lt);
    let mult = suffix_mult(l);
    let k = lt.len();
    assert(k >= 2);
    assert(lt[k - 1] == l[l.len() - 1]);
    let last1 = lt.subrange(k - 1, k as int);
    let last2 = lt.subrange(k - 2, k as int);
    assert(last1 =~= seq![lt[k - 1]]);
    assert(last2 =~= seq![lt[k - 2], lt[k - 1]]);
    if l.len() == 2 {
        assert(lt[k - 2] == l[0]);
        assert(lt.take(k - 2) =~= d);
    } else {
        assert(lt.drop_last() =~= d);
        assert(is_digit(d[d.len() - 1]));
        assert(lt[k - 2] == d[d.len() - 1]);
    }
    if l == seq!['k'] {
        assert(!ends_with(lt, seq!['g', 'b']) && !ends_with(lt, seq!['g']) && !ends_with(lt, seq!['m', 'b'])
            && !ends_with(lt, seq!['m']) && !ends_with(lt, seq!['k', 'b']) && ends_with(lt, seq!['k']));
    } else if l == seq!['k', 'b'] {
        assert(last2 =~= l);
        assert(last2[0] != seq!['g', 'b'][0] && last2[0] != seq!['m', 'b'][0]);
        assert(last1[0] != seq!['g'][0] && last1[0] != seq!['m'][0]);
        assert(!ends_with(lt, seq!['g', 'b']) && !ends_with(lt, seq!['g']) && !ends_with(lt, seq!['m', 'b'])
            && !ends_with(lt, seq!['m']) && ends_with(lt, seq!['k', 'b']));
    } else if l == seq!['m'] {
        assert(!ends_with(lt, seq!['g', 'b']) && !ends_with(lt, seq!['g']) && !ends_with(lt, seq!['m', 'b'])
            && ends_with(lt, seq!['m']));
    } else if l == seq!['m', 'b'] {
        assert(last2 =~= l);
        assert(last2[0] != seq!['g', 'b'][0]);
        assert(last1[0] != seq!['g'][0]);
        assert(!ends_with(lt, seq!['g', 'b']) && !ends_with(lt, seq!['g']) && ends_with(lt, seq!['m', 'b']));
    } else if l == seq!['g'] {
        assert(!ends_with(lt, seq!['g', 'b']) && ends_with(lt, seq!['g']));
    } else {
        assert(ends_with(lt, seq!['g', 'b']));
    }
    assert(size_split(lt) == (d, mult));
    assert(decimal_parts(d) == Some((d, Seq::<char>::empty())));
    assert(digits_value(Seq::<char>::empty()) == 0);
    assert(pow10(0) == 1);
    assert(mult <= gib());
    assert(n * mult <= 1048576 * 1073741824) by (nonlinear_arith)
        requires
            n <= 1048576,
            mult <= 1073741824,
    ;
    assert(scaled_value(d, Seq::<char>::empty(), mult) == n * mult);
}

} // verus!
