//! Positional rendering of the codec's scientific text, and field padding.

use vstd::prelude::*;
use vstd::string::StrSliceExecFns;

verus! {

/// Where the text goes inside a field wider than the text.
#[derive(Clone, Copy, Debug, PartialEq, Eq, Structural)]
pub enum Alignment {
    Left,
    Right,
    Center,
}

/// Options that shape the textual form of a value.
#[derive(Clone, Copy, Debug, PartialEq, Eq, Structural)]
pub struct FormatSpec {
    /// Minimum number of characters in the field; `0` leaves the text unpadded.
    pub width: usize,
    /// Exact number of fraction digits of a finite value, if given.
    pub precision: Option<usize>,
    /// Alignment inside the field; `None` takes the default of the form.
    pub align: Option<Alignment>,
    /// Character that fills the field.
    pub fill: char,
    /// Show `+` before a value that is not negative.
    pub sign_plus: bool,
    /// Pad a finite value with `0` between sign and digits.
    pub zero_pad: bool,
}

impl Default for FormatSpec {
    /// No width, no precision, default alignment, space fill, no forced
    /// sign, no zero padding.
    fn default() -> (r: FormatSpec)
        ensures
            r == (FormatSpec {
                width: 0,
                precision: None,
                align: None,
                fill: ' ',
                sign_plus: false,
                zero_pad: false,
            }),
    {
        FormatSpec { width: 0, precision: None, align: None, fill: ' ', sign_plus: false, zero_pad: false }
    }
}

/// `n` copies of `c`.
pub open spec fn repeat(c: char, n: nat) -> Seq<char> {
    Seq::new(n, |i: int| c)
}

pub open spec fn is_digit(c: char) -> bool {
    '0' <= c && c <= '9'
}

pub open spec fn all_digits(s: Seq<char>) -> bool {
    forall|i: int| 0 <= i < s.len() ==> is_digit(#[trigger] s[i])
}

/// Value of a string of decimal digits.
pub open spec fn digits_value(s: Seq<char>) -> int
    decreases s.len(),
{
    if s.len() == 0 {
        0
    } else {
        digits_value(s.drop_last()) * 10 + (s.last() as int - '0' as int)
    }
}

/// A signed decimal integer that fits in 64 bits: an optional `+` or `-`,
/// then one or more digits.
pub open spec fn parse_exponent(s: Seq<char>) -> Option<int> {
    let neg = s.len() > 0 && s[0] == '-';
    let body = if s.len() > 0 && (s[0] == '-' || s[0] == '+') {
        s.drop_first()
    } else {
        s
    };
    let v = if neg {
        -digits_value(body)
    } else {
        digits_value(body)
    };
    if body.len() == 0 || !all_digits(body) || v < i64::MIN || v > i64::MAX {
        None
    } else {
        Some(v)
    }
}

/// Index of the first `E` at or after `i`, or the length when there is none.
pub open spec fn e_index(s: Seq<char>, i: int) -> int
    decreases s.len() - i,
{
    if i < 0 || i >= s.len() {
        s.len() as int
    } else if s[i] == 'E' {
        i
    } else {
        e_index(s, i + 1)
    }
}

/// `s` without its trailing `0` characters.
pub open spec fn trim_zeros(s: Seq<char>) -> Seq<char>
    decreases s.len(),
{
    if s.len() > 0 && s.last() == '0' {
        trim_zeros(s.drop_last())
    } else {
        s
    }
}

/// Integer part of the coefficient digits `d` scaled by `10^e`.
pub open spec fn int_part(d: Seq<char>, e: int) -> Seq<char> {
    if e < 0 {
        if d.len() <= -e {
            seq!['0']
        } else {
            d.subrange(0, d.len() + e)
        }
    } else {
        d + repeat('0', e as nat)
    }
}

/// Fraction digits of `d` scaled by `10^e`, without trailing zeros.
pub open spec fn frac_part(d: Seq<char>, e: int) -> Seq<char> {
    if e < 0 {
        if d.len() <= -e {
            repeat('0', (-e - d.len()) as nat) + trim_zeros(d)
        } else {
            trim_zeros(d.subrange(d.len() + e, d.len() as int))
        }
    } else {
        Seq::empty()
    }
}

/// Fraction digits padded with zeros or cut to exactly `p` digits.
pub open spec fn fit_precision(a: Seq<char>, p: Option<usize>) -> Seq<char> {
    match p {
        None => a,
        Some(p) => if a.len() < p {
            a + repeat('0', (p - a.len()) as nat)
        } else {
            a.subrange(0, p as int)
        },
    }
}

/// Positional text, without sign, of the coefficient digits `d` scaled by `10^e`.
pub open spec fn positional(d: Seq<char>, e: int, p: Option<usize>) -> Seq<char> {
    let a = fit_precision(frac_part(d, e), p);
    if a.len() == 0 {
        int_part(d, e)
    } else {
        int_part(d, e) + seq!['.'] + a
    }
}

/// Fill characters before the text, for `n` characters of padding.
pub open spec fn pre_pad(a: Alignment, n: nat) -> nat {
    match a {
        Alignment::Left => 0,
        Alignment::Right => n,
        Alignment::Center => n / 2,
    }
}

/// `s` placed in a field of `n` more characters than it has.
pub open spec fn place(s: Seq<char>, a: Alignment, fill: char, n: nat) -> Seq<char> {
    repeat(fill, pre_pad(a, n)) + s + repeat(fill, (n - pre_pad(a, n)) as nat)
}

/// Sign that goes before a number.
pub open spec fn sign_of(f: FormatSpec, nonneg: bool) -> Seq<char> {
    if !nonneg {
        seq!['-']
    } else if f.sign_plus {
        seq!['+']
    } else {
        Seq::empty()
    }
}

/// Digits `buf` with their sign, padded as a number (right-aligned by default).
pub open spec fn pad_number(f: FormatSpec, nonneg: bool, buf: Seq<char>) -> Seq<char> {
    let sign = sign_of(f, nonneg);
    let len = sign.len() + buf.len();
    if len >= f.width {
        sign + buf
    } else if f.zero_pad {
        sign + repeat('0', (f.width - len) as nat) + buf
    } else {
        let a = match f.align {
            Some(a) => a,
            None => Alignment::Right,
        };
        place(sign + buf, a, f.fill, (f.width - len) as nat)
    }
}

/// Text padded as it stands (left-aligned by default).
pub open spec fn pad_text(f: FormatSpec, s: Seq<char>) -> Seq<char> {
    if s.len() >= f.width {
        s
    } else {
        let a = match f.align {
            Some(a) => a,
            None => Alignment::Left,
        };
        place(s, a, f.fill, (f.width - s.len()) as nat)
    }
}

/// Display form of the codec's text `t`: a text shaped as a sign character,
/// coefficient digits, `E` and an exponent is written positionally; any
/// other text (an infinity or a NaN) is padded as it stands.
pub open spec fn display_text(t: Seq<char>, f: FormatSpec) -> Seq<char> {
    if t.len() == 0 {
        pad_text(f, t)
    } else {
        let rest = t.drop_first();
        let k = e_index(rest, 0);
        let m = e_index(rest, k + 1);
        if k >= rest.len() {
            pad_text(f, t)
        } else {
            match parse_exponent(rest.subrange(k + 1, m)) {
                None => pad_text(f, t),
                Some(e) => pad_number(f, t[0] != '-', positional(rest.subrange(0, k), e, f.precision)),
            }
        }
    }
}

/// Relies on `String`'s `FromIterator<&char>`: the characters, in order.
#[verifier::external_body]
fn string_of(v: &Vec<char>) -> (r: String)
    ensures
        r@ == v@,
{
    v.iter().collect()
}

/// The characters of `s`, in order.
pub(crate) fn chars_of(s: &str) -> (r: Vec<char>)
    ensures
        r@ == s@,
{
    let n = s.unicode_len();
    let mut r: Vec<char> = Vec::new();
    let mut i: usize = 0;
    while i < n
        invariant
            n == s@.len(),
            i <= n,
            r@ == s@.subrange(0, i as int),
        decreases n - i,
    {
        r.push(s.get_char(i));
        i += 1;
        assert(r@ =~= s@.subrange(0, i as int));
    }
    assert(r@ =~= s@);
    r
}

/// Appends `n` copies of `c`.
fn push_repeat(out: &mut Vec<char>, c: char, n: u64)
    ensures
        final(out)@ == old(out)@ + repeat(c, n as nat),
{
    let mut i: u64 = 0;
    while i < n
        invariant
            i <= n,
            out@ == old(out)@ + repeat(c, i as nat),
        decreases n - i,
    {
        out.push(c);
        i += 1;
        assert(out@ =~= old(out)@ + repeat(c, i as nat));
    }
}

/// Appends `v[lo..hi]`.
fn push_range(out: &mut Vec<char>, v: &Vec<char>, lo: usize, hi: usize)
    requires
        lo <= hi <= v@.len(),
    ensures
        final(out)@ == old(out)@ + v@.subrange(lo as int, hi as int),
{
    let mut i: usize = lo;
    while i < hi
        invariant
            lo <= i <= hi <= v@.len(),
            out@ == old(out)@ + v@.subrange(lo as int, i as int),
        decreases hi - i,
    {
        out.push(v[i]);
        i += 1;
        assert(out@ =~= old(out)@ + v@.subrange(lo as int, i as int));
    }
}

/// Index of the first `E` in `v` at or after `from`, or the length.
fn find_e(v: &Vec<char>, from: usize) -> (r: usize)
    requires
        from <= v@.len(),
    ensures
        r as int == e_index(v@, from as int),
        from <= r <= v@.len(),
{
    let mut i: usize = from;
    while i < v.len() && v[i] != 'E'
        invariant
            from <= i <= v@.len(),
            e_index(v@, i as int) == e_index(v@, from as int),
        decreases v@.len() - i,
    {
        i += 1;
    }
    i
}

proof fn lemma_digits_value_nonneg(s: Seq<char>)
    requires
        all_digits(s),
    ensures
        digits_value(s) >= 0,
    decreases s.len(),
{
    if s.len() > 0 {
        assert(all_digits(s.drop_last()));
        lemma_digits_value_nonneg(s.drop_last());
        assert(is_digit(s[s.len() - 1]));
    }
}

/// Digits that follow a prefix worth more than `2^63` are worth more too.
proof fn lemma_digits_value_grows(s: Seq<char>, i: int)
    requires
        0 <= i <= s.len(),
        all_digits(s),
    ensures
        digits_value(s) >= digits_value(s.subrange(0, i)),
    decreases s.len() - i,
{
    if i < s.len() {
        lemma_digits_value_grows(s, i + 1);
        let t = s.subrange(0, i + 1);
        assert(t.drop_last() =~= s.subrange(0, i));
        assert(all_digits(s.subrange(0, i)));
        lemma_digits_value_nonneg(s.subrange(0, i));
        assert(is_digit(t[i]));
    } else {
        assert(s.subrange(0, i) =~= s);
    }
}

/// The exponent written in `v[lo..hi]`, as `parse_exponent` reads it.
fn parse_exponent_at(v: &Vec<char>, lo: usize, hi: usize) -> (r: Option<i64>)
    requires
        lo <= hi <= v@.len(),
    ensures
        match parse_exponent(v@.subrange(lo as int, hi as int)) {
            Some(e) => r == Some(e as i64),
            None => r is None,
        },
{
    let ghost s = v@.subrange(lo as int, hi as int);
    let mut start = lo;
    let mut neg = false;
    if lo < hi && (v[lo] == '-' || v[lo] == '+') {
        neg = v[lo] == '-';
        start = lo + 1;
    }
    let ghost body = v@.subrange(start as int, hi as int);
    assert(body =~= (if s.len() > 0 && (s[0] == '-' || s[0] == '+') { s.drop_first() } else { s }));
    if start == hi {
        return None;
    }
    let bound: u128 = 0x8000_0000_0000_0000;
    let mut acc: u128 = 0;
    let mut i = start;
    while i < hi
        invariant
            lo <= start <= i <= hi <= v@.len(),
            body == v@.subrange(start as int, hi as int),
            s == v@.subrange(lo as int, hi as int),
            body == (if s.len() > 0 && (s[0] == '-' || s[0] == '+') { s.drop_first() } else { s }),
            neg == (s.len() > 0 && s[0] == '-'),
            bound == 0x8000_0000_0000_0000,
            all_digits(v@.subrange(start as int, i as int)),
            acc as int == digits_value(v@.subrange(start as int, i as int)),
            acc <= bound,
        decreases hi - i,
    {
        let c = v[i];
        if c < '0' || c > '9' {
            assert(!is_digit(body[i - start]));
            assert(!all_digits(body));
            return None;
        }
        let ghost prev = v@.subrange(start as int, i as int);
        let d = (c as u32 - '0' as u32) as u128;
        assert(d <= 9);
        let next = acc * 10 + d;
        i += 1;
        assert(v@.subrange(start as int, i as int).drop_last() =~= prev);
        assert(all_digits(v@.subrange(start as int, i as int)));
        if next > bound {
            proof {
                if all_digits(body) {
                    assert(body.subrange(0, i - start) =~= v@.subrange(start as int, i as int));
                    lemma_digits_value_grows(body, i - start);
                }
            }
            return None;
        }
        acc = next;
    }
    assert(v@.subrange(start as int, i as int) =~= body);
    if neg {
        Some((0 - acc as i128) as i64)
    } else if acc == bound {
        None
    } else {
        Some(acc as i64)
    }
}

/// `v[lo..hi]` as a new vector.
fn slice_of(v: &Vec<char>, lo: usize, hi: usize) -> (r: Vec<char>)
    requires
        lo <= hi <= v@.len(),
    ensures
        r@ == v@.subrange(lo as int, hi as int),
{
    let mut r: Vec<char> = Vec::new();
    push_range(&mut r, v, lo, hi);
    assert(r@ =~= v@.subrange(lo as int, hi as int));
    r
}

/// `v` without its trailing zeros.
fn trimmed(v: &Vec<char>) -> (r: Vec<char>)
    ensures
        r@ == trim_zeros(v@),
{
    let mut n: usize = v.len();
    assert(v@.subrange(0, v@.len() as int) =~= v@);
    while n > 0 && v[n - 1] == '0'
        invariant
            n <= v@.len(),
            trim_zeros(v@.subrange(0, n as int)) == trim_zeros(v@),
        decreases n,
    {
        assert(v@.subrange(0, n as int).drop_last() =~= v@.subrange(0, n - 1));
        n -= 1;
    }
    slice_of(v, 0, n)
}

/// Positional text of the coefficient digits `d` scaled by `10^e`.
fn positional_of(d: &Vec<char>, e: i64, p: Option<usize>) -> (r: Vec<char>)
    ensures
        r@ == positional(d@, e as int, p),
{
    let mut ip: Vec<char> = Vec::new();
    let mut fp: Vec<char> = Vec::new();
    if e < 0 {
        let dp: u64 = if e == i64::MIN {
            0x8000_0000_0000_0000
        } else {
            (0 - e) as u64
        };
        let len = d.len() as u64;
        if len <= dp {
            ip.push('0');
            push_repeat(&mut fp, '0', dp - len);
            let t = trimmed(d);
            push_range(&mut fp, &t, 0, t.len());
            assert(t@.subrange(0, t@.len() as int) =~= t@);
            assert(ip@ =~= seq!['0']);
        } else {
            let cut = d.len() - dp as usize;
            push_range(&mut ip, d, 0, cut);
            let t = trimmed(&slice_of(d, cut, d.len()));
            fp = t;
        }
    } else {
        push_range(&mut ip, d, 0, d.len());
        push_repeat(&mut ip, '0', e as u64);
        assert(d@.subrange(0, d@.len() as int) =~= d@);
    }
    assert(ip@ =~= int_part(d@, e as int));
    assert(fp@ =~= frac_part(d@, e as int));
    match p {
        None => {},
        Some(p) => {
            if fp.len() < p {
                let more = (p - fp.len()) as u64;
                push_repeat(&mut fp, '0', more);
            } else {
                fp = slice_of(&fp, 0, p);
            }
        },
    }
    assert(fp@ =~= fit_precision(frac_part(d@, e as int), p));
    if fp.len() > 0 {
        ip.push('.');
        push_range(&mut ip, &fp, 0, fp.len());
        assert(fp@.subrange(0, fp@.len() as int) =~= fp@);
    }
    assert(ip@ =~= positional(d@, e as int, p));
    ip
}

/// `s` placed in a field of `n` more characters than it has.
fn place_of(s: &Vec<char>, a: Alignment, fill: char, n: usize) -> (r: Vec<char>)
    ensures
        r@ == place(s@, a, fill, n as nat),
{
    let pre: usize = match a {
        Alignment::Left => 0,
        Alignment::Right => n,
        Alignment::Center => n / 2,
    };
    let mut r: Vec<char> = Vec::new();
    push_repeat(&mut r, fill, pre as u64);
    push_range(&mut r, s, 0, s.len());
    push_repeat(&mut r, fill, (n - pre) as u64);
    assert(s@.subrange(0, s@.len() as int) =~= s@);
    assert(r@ =~= place(s@, a, fill, n as nat));
    r
}

/// Digits `buf` with their sign, padded as a number.
fn pad_number_of(f: &FormatSpec, nonneg: bool, buf: &Vec<char>) -> (r: Vec<char>)
    ensures
        r@ == pad_number(*f, nonneg, buf@),
{
    let mut body: Vec<char> = Vec::new();
    if !nonneg {
        body.push('-');
    } else if f.sign_plus {
        body.push('+');
    }
    assert(body@ =~= sign_of(*f, nonneg));
    let sign_len = body.len();
    push_range(&mut body, buf, 0, buf.len());
    assert(buf@.subrange(0, buf@.len() as int) =~= buf@);
    let len: u128 = sign_len as u128 + buf.len() as u128;
    if len >= f.width as u128 {
        body
    } else if f.zero_pad {
        let mut r: Vec<char> = Vec::new();
        push_range(&mut r, &body, 0, sign_len);
        push_repeat(&mut r, '0', (f.width - len as usize) as u64);
        push_range(&mut r, buf, 0, buf.len());
        assert(body@.subrange(0, sign_len as int) =~= sign_of(*f, nonneg));
        assert(r@ =~= pad_number(*f, nonneg, buf@));
        r
    } else {
        let a = match f.align {
            Some(a) => a,
            None => Alignment::Right,
        };
        place_of(&body, a, f.fill, f.width - len as usize)
    }
}

/// Text padded as it stands.
fn pad_text_of(f: &FormatSpec, s: &Vec<char>) -> (r: Vec<char>)
    ensures
        r@ == pad_text(*f, s@),
{
    if s.len() >= f.width {
        slice_of(s, 0, s.len())
    } else {
        let a = match f.align {
            Some(a) => a,
            None => Alignment::Left,
        };
        place_of(s, a, f.fill, f.width - s.len())
    }
}

/// Display form of the codec's text `t`.
fn display_chars(t: &Vec<char>, f: &FormatSpec) -> (r: Vec<char>)
    ensures
        r@ == display_text(t@, *f),
{
    if t.len() == 0 {
        return pad_text_of(f, t);
    }
    let rest = slice_of(t, 1, t.len());
    assert(rest@ =~= t@.drop_first());
    let k = find_e(&rest, 0);
    if k >= rest.len() {
        return pad_text_of(f, t);
    }
    let m = find_e(&rest, k + 1);
    match parse_exponent_at(&rest, k + 1, m) {
        None => pad_text_of(f, t),
        Some(e) => {
            let digits = slice_of(&rest, 0, k);
            let buf = positional_of(&digits, e, f.precision);
            pad_number_of(f, t[0] != '-', &buf)
        },
    }
}

/// Display form of the codec's scientific text `text` (such as `-123E-5`)
/// under the options `f`.
pub fn format_text(text: &str, f: &FormatSpec) -> (r: String)
    ensures
        r@ == display_text(text@, *f),
{
    let t = chars_of(text);
    string_of(&display_chars(&t, f))
}

/// The options `f` with no field width.
pub open spec fn unpadded(f: FormatSpec) -> FormatSpec {
    FormatSpec { width: 0, ..f }
}

proof fn lemma_place_len(s: Seq<char>, a: Alignment, fill: char, n: nat)
    ensures
        place(s, a, fill, n).len() == s.len() + n,
        pre_pad(a, n) <= n,
{
}

/// A field is as wide as the options ask, or as the unpadded text where
/// that is wider: the fill takes up exactly the width less the text.
pub proof fn law_field_width(t: Seq<char>, f: FormatSpec)
    ensures
        display_text(t, f).len() == if f.width > display_text(t, unpadded(f)).len() {
            f.width as int
        } else {
            display_text(t, unpadded(f)).len() as int
        },
{
    if t.len() > 0 {
        let rest = t.drop_first();
        let k = e_index(rest, 0);
        let m = e_index(rest, k + 1);
        if k < rest.len() {
            if let Some(e) = parse_exponent(rest.subrange(k + 1, m)) {
                let buf = positional(rest.subrange(0, k), e, f.precision);
                let a = match f.align {
                    Some(a) => a,
                    None => Alignment::Right,
                };
                let sign = sign_of(f, t[0] != '-');
                if sign.len() + buf.len() < f.width && !f.zero_pad {
                    lemma_place_len(sign + buf, a, f.fill, (f.width - sign.len() - buf.len()) as nat);
                }
                return;
            }
        }
    }
    let a = match f.align {
        Some(a) => a,
        None => Alignment::Left,
    };
    if t.len() < f.width {
        lemma_place_len(t, a, f.fill, (f.width - t.len()) as nat);
    }
}

/// A centred field puts half the fill, rounded down, before the text and
/// the rest after it.
pub proof fn law_center_split(t: Seq<char>, f: FormatSpec)
    requires
        f.align == Some(Alignment::Center),
        !f.zero_pad,
        f.width > display_text(t, unpadded(f)).len(),
    ensures
        ({
            let u = display_text(t, unpadded(f));
            let n = (f.width - u.len()) as nat;
            display_text(t, f) == repeat(f.fill, n / 2) + u + repeat(f.fill, (n - n / 2) as nat)
        }),
{
    if t.len() > 0 {
        let rest = t.drop_first();
        let k = e_index(rest, 0);
        let m = e_index(rest, k + 1);
        if k < rest.len() {
            if let Some(e) = parse_exponent(rest.subrange(k + 1, m)) {
                let buf = positional(rest.subrange(0, k), e, f.precision);
                let sign = sign_of(f, t[0] != '-');
                assert(sign_of(unpadded(f), t[0] != '-') == sign);
                return;
            }
        }
    }
}

/// Whether `t` is shaped as a sign character, coefficient digits, `E` and
/// an exponent, so that its display form is positional.
pub open spec fn is_scientific(t: Seq<char>) -> bool {
    t.len() > 0 && e_index(t.drop_first(), 0) < t.len() - 1 && parse_exponent(
        t.drop_first().subrange(
            e_index(t.drop_first(), 0) + 1,
            e_index(t.drop_first(), e_index(t.drop_first(), 0) + 1),
        ),
    ) is Some
}

/// Zero padding of a number goes between its sign and its digits: the
/// sign, if any, comes first, then as many `0` as the field lacks.
pub proof fn law_zero_pad_after_sign(t: Seq<char>, f: FormatSpec)
    requires
        is_scientific(t),
        f.zero_pad,
        f.width > display_text(t, unpadded(f)).len(),
    ensures
        ({
            let u = display_text(t, unpadded(f));
            let sl = sign_of(f, t[0] != '-').len() as int;
            display_text(t, f) == u.subrange(0, sl) + repeat('0', (f.width - u.len()) as nat)
                + u.subrange(sl, u.len() as int)
        }),
{
    let rest = t.drop_first();
    let k = e_index(rest, 0);
    let m = e_index(rest, k + 1);
    let e = parse_exponent(rest.subrange(k + 1, m))->Some_0;
    let buf = positional(rest.subrange(0, k), e, f.precision);
    let sign = sign_of(f, t[0] != '-');
    assert(sign_of(unpadded(f), t[0] != '-') == sign);
    let u = sign + buf;
    assert(u.subrange(0, sign.len() as int) =~= sign);
    assert(u.subrange(sign.len() as int, u.len() as int) =~= buf);
}

} // verus!
