//! Character-level text utilities.
//!
//! Strings are processed as their character sequences: a `&str` is turned
//! into a `Vec<char>` at the boundary and back at the end, so every
//! formatting and parsing step in between is ordinary verified code over
//! plain values.

use vstd::prelude::*;

verus! {

/// Relies on `str::chars`: the iterator yields exactly the characters of
/// the string, in order.
#[verifier::external_body]
pub fn str_to_chars(s: &str) -> (r: Vec<char>)
    ensures
        r@ == s@,
{
    s.chars().collect()
}

/// Relies on `String`'s `FromIterator<char>` impl: collecting characters
/// builds the string of exactly those characters, in order.
#[verifier::external_body]
pub fn chars_to_string(v: &Vec<char>) -> (r: String)
    ensures
        r@ == v@,
{
    v.iter().collect()
}

/// The decimal digit character for a value 0 through 9.
pub open spec fn digit_char(d: int) -> char {
    ((48 + d) as u8) as char
}

/// Whether `c` is a decimal digit.
pub open spec fn is_digit(c: char) -> bool {
    48 <= c as int <= 57
}

/// The value of a decimal digit character.
pub open spec fn digit_val(c: char) -> int {
    c as int - 48
}

/// The decimal representation of a non-negative number, without padding.
pub open spec fn dec_chars(n: int) -> Seq<char>
    decreases n,
{
    if n < 10 {
        seq![digit_char(n)]
    } else {
        dec_chars(n / 10).push(digit_char(n % 10))
    }
}

/// The `w` least-significant decimal digits of `n`: the zero-padded
/// fixed-width representation when `n < 10^w`.
pub open spec fn dec_chars_padded(n: int, w: int) -> Seq<char>
    decreases w,
{
    if w <= 0 {
        Seq::empty()
    } else {
        dec_chars_padded(n / 10, w - 1).push(digit_char(n % 10))
    }
}

/// Ten to the `w`.
pub open spec fn pow10(w: int) -> int
    decreases w,
{
    if w <= 0 {
        1
    } else {
        10 * pow10(w - 1)
    }
}

/// The number a digit sequence denotes, most significant digit first.
pub open spec fn dec_val(s: Seq<char>) -> int
    decreases s.len(),
{
    if s.len() == 0 {
        0
    } else {
        dec_val(s.drop_last()) * 10 + digit_val(s.last())
    }
}

/// The decimal representation of `n` consists of digits, is non-empty, and
/// denotes `n` again.
pub proof fn lemma_dec_chars_value(n: int)
    requires
        n >= 0,
    ensures
        dec_chars(n).len() >= 1,
        forall|i: int| 0 <= i < dec_chars(n).len() ==> is_digit(#[trigger] dec_chars(n)[i]),
        dec_val(dec_chars(n)) == n,
    decreases n,
{
    if n < 10 {
        assert(dec_chars(n) == seq![digit_char(n)]);
        assert(dec_val(dec_chars(n)) == dec_val(seq![digit_char(n)].drop_last()) * 10 + digit_val(
            digit_char(n),
        ));
        assert(seq![digit_char(n)].drop_last() =~= Seq::<char>::empty());
    } else {
        lemma_dec_chars_value(n / 10);
        let s = dec_chars(n);
        assert(s == dec_chars(n / 10).push(digit_char(n % 10)));
        assert(s.drop_last() =~= dec_chars(n / 10));
        assert(forall|i: int|
            0 <= i < s.len() - 1 ==> #[trigger] s[i] == dec_chars(n / 10)[i]);
    }
}

/// The fixed-width representation of `n < 10^w` has width `w`, consists of
/// digits, and denotes `n` again.
pub proof fn lemma_dec_chars_padded_value(n: int, w: int)
    requires
        0 <= w,
        0 <= n < pow10(w),
    ensures
        dec_chars_padded(n, w).len() == w,
        forall|i: int|
            0 <= i < w ==> is_digit(#[trigger] dec_chars_padded(n, w)[i]),
        dec_val(dec_chars_padded(n, w)) == n,
    decreases w,
{
    if w > 0 {
        assert(n / 10 < pow10(w - 1)) by (nonlinear_arith)
            requires
                0 <= n < 10 * pow10(w - 1),
        ;
        lemma_dec_chars_padded_value(n / 10, w - 1);
        let s = dec_chars_padded(n, w);
        assert(s.drop_last() =~= dec_chars_padded(n / 10, w - 1));
        assert(forall|i: int|
            0 <= i < s.len() - 1 ==> #[trigger] s[i] == dec_chars_padded(n / 10, w - 1)[i]);
    }
}

/// Appends the decimal representation of `n`.
pub fn push_decimal(out: &mut Vec<char>, n: u64)
    ensures
        final(out)@ == old(out)@ + dec_chars(n as int),
    decreases n,
{
    if n >= 10 {
        push_decimal(out, n / 10);
    }
    let d: u8 = (n % 10) as u8;
    out.push((48 + d) as char);
    proof {
        if n >= 10 {
            assert(out@ =~= old(out)@ + dec_chars(n as int / 10).push(digit_char(n as int % 10)));
        } else {
            assert(out@ =~= old(out)@ + seq![digit_char(n as int)]);
        }
    }
}

/// Appends the `width` least-significant decimal digits of `n`,
/// zero-padded.
pub fn push_decimal_padded(out: &mut Vec<char>, n: u64, width: usize)
    ensures
        final(out)@ == old(out)@ + dec_chars_padded(n as int, width as int),
    decreases width,
{
    if width == 0 {
        proof {
            assert(out@ =~= old(out)@ + Seq::<char>::empty());
        }
        return ;
    }
    push_decimal_padded(out, n / 10, width - 1);
    let d: u8 = (n % 10) as u8;
    out.push((48 + d) as char);
    proof {
        assert(out@ =~= old(out)@ + dec_chars_padded(n as int / 10, width - 1).push(
            digit_char(n as int % 10),
        ));
    }
}

/// The hexadecimal digit character (lowercase) for a value 0 through 15.
pub open spec fn hex_char(d: int) -> char {
    if d < 10 {
        ((48 + d) as u8) as char
    } else {
        ((87 + d) as u8) as char
    }
}

/// Whether `c` is a lowercase hexadecimal digit.
pub open spec fn is_hex_digit(c: char) -> bool {
    48 <= c as int <= 57 || 97 <= c as int <= 102
}

/// The value of a lowercase hexadecimal digit character.
pub open spec fn hex_val(c: char) -> int {
    if c as int >= 97 {
        c as int - 87
    } else {
        c as int - 48
    }
}

/// The `w` least-significant hexadecimal digits of `n`, zero-padded.
pub open spec fn hex_chars_padded(n: int, w: int) -> Seq<char>
    decreases w,
{
    if w <= 0 {
        Seq::empty()
    } else {
        hex_chars_padded(n / 16, w - 1).push(hex_char(n % 16))
    }
}

/// Sixteen to the `w`.
pub open spec fn pow16(w: int) -> int
    decreases w,
{
    if w <= 0 {
        1
    } else {
        16 * pow16(w - 1)
    }
}

/// The number a hexadecimal digit sequence denotes.
pub open spec fn hex_seq_val(s: Seq<char>) -> int
    decreases s.len(),
{
    if s.len() == 0 {
        0
    } else {
        hex_seq_val(s.drop_last()) * 16 + hex_val(s.last())
    }
}

/// The fixed-width hexadecimal representation of `n < 16^w` has width `w`,
/// consists of hex digits, and denotes `n` again.
pub proof fn lemma_hex_chars_padded_value(n: int, w: int)
    requires
        0 <= w,
        0 <= n < pow16(w),
    ensures
        hex_chars_padded(n, w).len() == w,
        forall|i: int|
            0 <= i < w ==> is_hex_digit(#[trigger] hex_chars_padded(n, w)[i]),
        hex_seq_val(hex_chars_padded(n, w)) == n,
    decreases w,
{
    if w > 0 {
        assert(n / 16 < pow16(w - 1)) by (nonlinear_arith)
            requires
                0 <= n < 16 * pow16(w - 1),
        ;
        lemma_hex_chars_padded_value(n / 16, w - 1);
        let s = hex_chars_padded(n, w);
        assert(s.drop_last() =~= hex_chars_padded(n / 16, w - 1));
        assert(forall|i: int|
            0 <= i < s.len() - 1 ==> #[trigger] s[i] == hex_chars_padded(n / 16, w - 1)[i]);
    }
}

/// Appends the `width` least-significant hex digits of `n`, zero-padded,
/// in lowercase.
pub fn push_hex_padded(out: &mut Vec<char>, n: u128, width: usize)
    ensures
        final(out)@ == old(out)@ + hex_chars_padded(n as int, width as int),
    decreases width,
{
    if width == 0 {
        proof {
            assert(out@ =~= old(out)@ + Seq::<char>::empty());
        }
        return ;
    }
    push_hex_padded(out, n / 16, width - 1);
    let d: u8 = (n % 16) as u8;
    if d < 10 {
        out.push((48 + d) as char);
    } else {
        out.push((87 + d) as char);
    }
    proof {
        assert(out@ =~= old(out)@ + hex_chars_padded(n as int / 16, width - 1).push(
            hex_char(n as int % 16),
        ));
    }
}

/// The character with uppercase ASCII letters lowered; others unchanged.
pub open spec fn lower_char(c: char) -> char {
    if 65 <= c as int <= 90 {
        ((c as int + 32) as u8) as char
    } else {
        c
    }
}

/// The character with lowercase ASCII letters raised; others unchanged.
pub open spec fn upper_char(c: char) -> char {
    if 97 <= c as int <= 122 {
        ((c as int - 32) as u8) as char
    } else {
        c
    }
}

/// Lowers uppercase ASCII letters; leaves every other character unchanged.
pub fn to_lower(v: &Vec<char>) -> (r: Vec<char>)
    ensures
        r@.len() == v@.len(),
        forall|i: int| 0 <= i < v@.len() ==> r@[i] == lower_char(#[trigger] v@[i]),
{
    let mut out: Vec<char> = Vec::new();
    let mut k: usize = 0;
    while k < v.len()
        invariant
            k <= v@.len(),
            out@.len() == k,
            forall|i: int| 0 <= i < k ==> out@[i] == lower_char(#[trigger] v@[i]),
        decreases v@.len() - k,
    {
        let c = v[k];
        let u: u32 = c as u32;
        if 65 <= u && u <= 90 {
            out.push(((u + 32) as u8) as char);
        } else {
            out.push(c);
        }
        k = k + 1;
    }
    out
}

/// Raises lowercase ASCII letters; leaves every other character unchanged.
pub fn to_upper(v: &Vec<char>) -> (r: Vec<char>)
    ensures
        r@.len() == v@.len(),
        forall|i: int| 0 <= i < v@.len() ==> r@[i] == upper_char(#[trigger] v@[i]),
{
    let mut out: Vec<char> = Vec::new();
    let mut k: usize = 0;
    while k < v.len()
        invariant
            k <= v@.len(),
            out@.len() == k,
            forall|i: int| 0 <= i < k ==> out@[i] == upper_char(#[trigger] v@[i]),
        decreases v@.len() - k,
    {
        let c = v[k];
        let u: u32 = c as u32;
        if 97 <= u && u <= 122 {
            out.push(((u - 32) as u8) as char);
        } else {
            out.push(c);
        }
        k = k + 1;
    }
    out
}

/// Whether two character vectors hold the same characters.
pub fn chars_eq(a: &Vec<char>, b: &Vec<char>) -> (r: bool)
    ensures
        r == (a@ == b@),
{
    if a.len() != b.len() {
        proof {
            assert(a@.len() != b@.len());
        }
        return false;
    }
    let mut k: usize = 0;
    while k < a.len()
        invariant
            a@.len() == b@.len(),
            k <= a@.len(),
            forall|i: int| 0 <= i < k ==> a@[i] == b@[i],
        decreases a@.len() - k,
    {
        if a[k] != b[k] {
            return false;
        }
        k = k + 1;
    }
    proof {
        assert(a@ =~= b@);
    }
    true
}

/// Appends every character of `src`.
pub fn push_chars(out: &mut Vec<char>, src: &Vec<char>)
    ensures
        final(out)@ == old(out)@ + src@,
{
    let mut k: usize = 0;
    while k < src.len()
        invariant
            k <= src@.len(),
            out@ == old(out)@ + src@.take(k as int),
        decreases src@.len() - k,
    {
        out.push(src[k]);
        proof {
            assert(old(out)@ + src@.take(k as int) + seq![src@[k as int]] =~= old(out)@
                + src@.take(k + 1));
        }
        k = k + 1;
    }
    proof {
        assert(src@.take(src@.len() as int) =~= src@);
    }
}

/// Appends every character of a literal.
pub fn push_str_chars(out: &mut Vec<char>, s: &str)
    ensures
        final(out)@ == old(out)@ + s@,
{
    let v = str_to_chars(s);
    push_chars(out, &v);
}

/// A hex digit sequence denotes a value below sixteen to its length.
pub proof fn lemma_hex_seq_val_bound(s: Seq<char>)
    requires
        forall|i: int| 0 <= i < s.len() ==> is_hex_digit(#[trigger] s[i]),
    ensures
        0 <= hex_seq_val(s) < pow16(s.len() as int),
    decreases s.len(),
{
    if s.len() > 0 {
        assert(forall|i: int|
            0 <= i < s.len() - 1 ==> is_hex_digit(#[trigger] s.drop_last()[i]));
        lemma_hex_seq_val_bound(s.drop_last());
    }
}

/// A digit sequence denotes a value below ten to its length.
pub proof fn lemma_dec_val_bound(s: Seq<char>)
    requires
        forall|i: int| 0 <= i < s.len() ==> is_digit(#[trigger] s[i]),
    ensures
        0 <= dec_val(s) < pow10(s.len() as int),
    decreases s.len(),
{
    if s.len() > 0 {
        assert(forall|i: int| 0 <= i < s.len() - 1 ==> is_digit(#[trigger] s.drop_last()[i]));
        lemma_dec_val_bound(s.drop_last());
    }
}

/// The value of a lowercase hex digit, or `None` for any other character.
pub fn hex_digit_value(c: char) -> (r: Option<u8>)
    ensures
        r is Some <==> is_hex_digit(c),
        r matches Some(d) ==> d == hex_val(c),
{
    let u: u32 = c as u32;
    if 48 <= u && u <= 57 {
        Some((u - 48) as u8)
    } else if 97 <= u && u <= 102 {
        Some((u - 87) as u8)
    } else {
        None
    }
}

/// The value of a decimal digit, or `None` for any other character.
pub fn dec_digit_value(c: char) -> (r: Option<u8>)
    ensures
        r is Some <==> is_digit(c),
        r matches Some(d) ==> d == digit_val(c),
{
    let u: u32 = c as u32;
    if 48 <= u && u <= 57 {
        Some((u - 48) as u8)
    } else {
        None
    }
}

/// Parses a fixed-width run of lowercase hex digits.
pub fn parse_hex_u128(v: &Vec<char>, start: usize, width: usize) -> (r: Option<u128>)
    requires
        start + width <= v@.len(),
        width <= 32,
    ensures
        r is Some <==> (forall|i: int|
            start <= i < start + width ==> is_hex_digit(#[trigger] v@[i])),
        r matches Some(x) ==> x == hex_seq_val(
            v@.subrange(start as int, start as int + width as int),
        ),
{
    let n: usize = v.len();
    let mut acc: u128 = 0;
    let mut j: usize = 0;
    while j < width
        invariant
            start + width <= n,
            n == v@.len(),
            width <= 32,
            j <= width,
            forall|i: int| start <= i < start + j ==> is_hex_digit(#[trigger] v@[i]),
            acc == hex_seq_val(v@.subrange(start as int, start as int + j as int)),
            acc < pow16(j as int),
        decreases width - j,
    {
        let c = v[start + j];
        match hex_digit_value(c) {
            None => {
                return None;
            },
            Some(d) => {
                proof {
                    let pre = v@.subrange(start as int, start as int + j as int);
                    let cur = v@.subrange(start as int, start as int + j + 1);
                    assert(cur.drop_last() =~= pre);
                    assert(cur.last() == v@[start + j]);
                    lemma_pow16_le(j as int + 1, 32);
                    reveal_with_fuel(pow16, 33);
                    assert(acc * 16 + d < pow16(j as int + 1)) by (nonlinear_arith)
                        requires
                            acc < pow16(j as int),
                            d < 16,
                            pow16(j as int + 1) == 16 * pow16(j as int),
                    ;
                }
                acc = acc * 16 + d as u128;
            },
        }
        j = j + 1;
    }
    Some(acc)
}

/// Powers of sixteen are monotone in the exponent.
pub proof fn lemma_pow16_le(e1: int, e2: int)
    requires
        e1 <= e2,
    ensures
        pow16(e1) <= pow16(e2),
    decreases e2 - e1,
{
    if e1 < e2 {
        lemma_pow16_le(e1, e2 - 1);
        lemma_pow16_positive(e2 - 1);
    }
}

/// Powers of sixteen are positive.
pub proof fn lemma_pow16_positive(e: int)
    ensures
        pow16(e) >= 1,
    decreases e,
{
    if e > 0 {
        lemma_pow16_positive(e - 1);
    }
}

/// Powers of ten are monotone in the exponent.
pub proof fn lemma_pow10_le(e1: int, e2: int)
    requires
        e1 <= e2,
    ensures
        pow10(e1) <= pow10(e2),
    decreases e2 - e1,
{
    if e1 < e2 {
        lemma_pow10_le(e1, e2 - 1);
        lemma_pow10_positive(e2 - 1);
    }
}

/// Powers of ten are positive.
pub proof fn lemma_pow10_positive(e: int)
    ensures
        pow10(e) >= 1,
    decreases e,
{
    if e > 0 {
        lemma_pow10_positive(e - 1);
    }
}

/// The characters of `s` with uppercase ASCII letters lowered.
pub open spec fn lower_seq(s: Seq<char>) -> Seq<char> {
    Seq::new(s.len(), |i: int| lower_char(s[i]))
}

/// The Unicode code point of a character.
pub fn char_code(c: char) -> (u: u32)
    ensures
        u as int == c as int,
{
    let u: u32 = c as u32;
    proof {
        broadcast use vstd::utf8::char_is_scalar;

        assert(vstd::utf8::is_scalar(c as u32));
    }
    u
}

/// Whether the literal `lit` stands at `pos` of `v`.
pub open spec fn lit_at(v: Seq<char>, pos: int, lit: Seq<char>) -> bool {
    0 <= pos && pos + lit.len() <= v.len() && v.subrange(pos, pos + lit.len() as int) == lit
}

/// Consumes the literal `lit` at `pos`, yielding the position after it.
pub fn expect_lit(v: &Vec<char>, pos: usize, lit: &str) -> (r: Option<usize>)
    ensures
        r matches Some(e) ==> lit_at(v@, pos as int, lit@) && e == pos + lit@.len(),
        r is None ==> !lit_at(v@, pos as int, lit@),
{
    let l = str_to_chars(lit);
    let n: usize = v.len();
    if n < l.len() || pos > n - l.len() {
        return None;
    }
    let mut k: usize = 0;
    while k < l.len()
        invariant
            l@ == lit@,
            n == v@.len(),
            pos + l@.len() <= n,
            k <= l@.len(),
            forall|i: int| 0 <= i < k ==> v@[pos + i] == l@[i],
        decreases l@.len() - k,
    {
        if v[pos + k] != l[k] {
            proof {
                assert(!lit_at(v@, pos as int, lit@)) by {
                    if lit_at(v@, pos as int, lit@) {
                        assert(v@.subrange(pos as int, pos + lit@.len() as int)[k as int]
                            == lit@[k as int]);
                    }
                }
            }
            return None;
        }
        k = k + 1;
    }
    proof {
        assert(v@.subrange(pos as int, pos + lit@.len() as int) =~= lit@);
    }
    Some(pos + l.len())
}

/// Parses a fixed-width run of decimal digits.
pub fn parse_dec_fixed(v: &Vec<char>, pos: usize, width: usize) -> (r: Option<u64>)
    requires
        pos + width <= v@.len(),
        width <= 18,
    ensures
        r is Some <==> (forall|i: int| pos <= i < pos + width ==> is_digit(#[trigger] v@[i])),
        r matches Some(x) ==> x == dec_val(v@.subrange(pos as int, pos as int + width as int)),
{
    let n: usize = v.len();
    let mut acc: u64 = 0;
    let mut j: usize = 0;
    while j < width
        invariant
            pos + width <= n,
            n == v@.len(),
            width <= 18,
            j <= width,
            forall|i: int| pos <= i < pos + j ==> is_digit(#[trigger] v@[i]),
            acc == dec_val(v@.subrange(pos as int, pos as int + j as int)),
            acc < pow10(j as int),
        decreases width - j,
    {
        let c = v[pos + j];
        match dec_digit_value(c) {
            None => {
                return None;
            },
            Some(d) => {
                proof {
                    let pre = v@.subrange(pos as int, pos as int + j as int);
                    let cur = v@.subrange(pos as int, pos as int + j + 1);
                    assert(cur.drop_last() =~= pre);
                    assert(cur.last() == v@[pos + j]);
                    lemma_pow10_le(j as int + 1, 19);
                    reveal_with_fuel(pow10, 20);
                    assert(acc * 10 + d < pow10(j as int + 1)) by (nonlinear_arith)
                        requires
                            acc < pow10(j as int),
                            d < 10,
                            pow10(j as int + 1) == 10 * pow10(j as int),
                    ;
                }
                acc = acc * 10 + d as u64;
            },
        }
        j = j + 1;
    }
    Some(acc)
}

} // verus!
