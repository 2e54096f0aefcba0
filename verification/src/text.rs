//! Fixed-width hexadecimal text.
use vstd::prelude::*;
use vstd::arithmetic::div_mod::{lemma_div_denominator, lemma_fundamental_div_mod_converse, lemma_mod_breakdown};

verus! {

/// The hexadecimal digit for `d` (below 16), in upper or lower case.
pub open spec fn hex_digit(d: nat, upper: bool) -> char {
    if d < 10 {
        (48 + d) as char
    } else if upper {
        (55 + d) as char
    } else {
        (87 + d) as char
    }
}

/// The last `width` hexadecimal digits of `v`, most significant first.
///
/// For `v < 16^width` this is `v` written in hexadecimal and padded with zeros on the left.
pub open spec fn hex(v: nat, width: nat, upper: bool) -> Seq<char>
    decreases width,
{
    if width == 0 {
        Seq::empty()
    } else {
        hex(v / 16, (width - 1) as nat, upper).push(hex_digit(v % 16, upper))
    }
}

fn hex_digit_char(d: u64, upper: bool) -> (c: char)
    requires
        d < 16,
    ensures
        c == hex_digit(d as nat, upper),
{
    let code: u8 = if d < 10 {
        (48 + d) as u8
    } else if upper {
        (55 + d) as u8
    } else {
        (87 + d) as u8
    };
    code as char
}

/// Appends the last `width` hexadecimal digits of `v` to `out`.
pub fn push_hex(out: &mut String, v: u64, width: usize, upper: bool)
    ensures
        final(out)@ == old(out)@ + hex(v as nat, width as nat, upper),
    decreases width,
{
    if width > 0 {
        push_hex(out, v / 16, width - 1, upper);
        push_char(out, hex_digit_char(v % 16, upper));
        assert(final(out)@ =~= old(out)@ + hex(v as nat, width as nat, upper));
    } else {
        assert(out@ =~= old(out)@ + hex(v as nat, width as nat, upper));
    }
}

/// Appends the character `c` to `s`.
///
/// Trusted: calls `String::push`, which appends one character.
#[verifier::external_body]
pub(crate) fn push_char(s: &mut String, c: char)
    ensures
        final(s)@ == old(s)@.push(c),
{
    s.push(c);
}

/// `16` raised to the power `n`.
pub open spec fn pow16(n: nat) -> nat
    decreases n,
{
    if n == 0 {
        1
    } else {
        16 * pow16((n - 1) as nat)
    }
}

/// Whether `c` is a hexadecimal digit in the given case.
pub open spec fn is_hex_digit(c: char, upper: bool) -> bool {
    ('0' <= c <= '9') || (upper && 'A' <= c <= 'F') || (!upper && 'a' <= c <= 'f')
}

pub proof fn lemma_pow16_positive(n: nat)
    ensures
        pow16(n) > 0,
    decreases n,
{
    if n > 0 {
        lemma_pow16_positive((n - 1) as nat);
    }
}

/// The text has `width` characters, each a hexadecimal digit.
pub proof fn lemma_hex_digits(v: nat, width: nat, upper: bool)
    ensures
        hex(v, width, upper).len() == width,
        forall|i: int| 0 <= i < width ==> is_hex_digit(#[trigger] hex(v, width, upper)[i], upper),
    decreases width,
{
    if width > 0 {
        lemma_hex_digits(v / 16, (width - 1) as nat, upper);
        let d = v % 16;
        assert(is_hex_digit(hex_digit(d, upper), upper));
    }
}

/// The last `width` digits of `v` only depend on `v` modulo `16^width`.
pub proof fn lemma_hex_mod(v: nat, width: nat, upper: bool)
    ensures
        hex(v, width, upper) == hex(v % pow16(width), width, upper),
    decreases width,
{
    lemma_pow16_positive(width);
    if width > 0 {
        let p = pow16((width - 1) as nat);
        lemma_pow16_positive((width - 1) as nat);
        let r = v % pow16(width);
        lemma_mod_breakdown(v as int, 16, p as int);
        // r == 16 * ((v / 16) % p) + v % 16
        lemma_fundamental_div_mod_converse(r as int, 16, ((v / 16) % p) as int, (v % 16) as int);
        lemma_hex_mod(v / 16, (width - 1) as nat, upper);
        lemma_hex_mod(r / 16, (width - 1) as nat, upper);
        assert((r / 16) % p == (v / 16) % p) by {
            vstd::arithmetic::div_mod::lemma_small_mod((v / 16) % p, p);
        }
    }
}

/// The last `n + m` digits of `v` are the last `n` digits of `v / 16^m` followed by the
/// last `m` digits of `v`.
pub proof fn lemma_hex_split(v: nat, n: nat, m: nat, upper: bool)
    ensures
        hex(v, n + m, upper) == hex(v / pow16(m), n, upper) + hex(v, m, upper),
    decreases m,
{
    lemma_pow16_positive(m);
    if m == 0 {
        assert(pow16(0) == 1);
        assert(v / 1 == v);
        assert(hex(v, m, upper) == Seq::<char>::empty());
        assert(hex(v, n + m, upper) =~= hex(v / pow16(m), n, upper) + hex(v, m, upper));
    } else {
        let p = pow16((m - 1) as nat);
        lemma_pow16_positive((m - 1) as nat);
        lemma_hex_split(v / 16, n, (m - 1) as nat, upper);
        lemma_div_denominator(v as int, 16, p as int);
        assert((n + m - 1) as nat == n + (m - 1) as nat);
        assert(hex(v, n + m, upper) =~= hex(v / pow16(m), n, upper) + hex(v, m, upper));
    }
}

/// The sixteen hexadecimal glyphs in order of value, in upper or lower case.
pub open spec fn hex_glyphs(upper: bool) -> Seq<char> {
    if upper {
        seq!['0', '1', '2', '3', '4', '5', '6', '7', '8', '9', 'A', 'B', 'C', 'D', 'E', 'F']
    } else {
        seq!['0', '1', '2', '3', '4', '5', '6', '7', '8', '9', 'a', 'b', 'c', 'd', 'e', 'f']
    }
}

/// The digit for `d` is the standard glyph of value `d`.
pub proof fn lemma_hex_digit_glyph(d: nat, upper: bool)
    requires
        d < 16,
    ensures
        hex_digit(d, upper) == hex_glyphs(upper)[d as int],
{
    let g = hex_glyphs(upper);
    assert(g[0] == '0' && g[1] == '1' && g[2] == '2' && g[3] == '3' && g[4] == '4' && g[5] == '5'
        && g[6] == '6' && g[7] == '7' && g[8] == '8' && g[9] == '9');
    if upper {
        assert(g[10] == 'A' && g[11] == 'B' && g[12] == 'C' && g[13] == 'D' && g[14] == 'E' && g[15] == 'F');
    } else {
        assert(g[10] == 'a' && g[11] == 'b' && g[12] == 'c' && g[13] == 'd' && g[14] == 'e' && g[15] == 'f');
    }
    assert(d == 0 || d == 1 || d == 2 || d == 3 || d == 4 || d == 5 || d == 6 || d == 7 || d == 8 || d == 9
        || d == 10 || d == 11 || d == 12 || d == 13 || d == 14 || d == 15);
}

/// Positional notation: character `i` of the last `width` hexadecimal digits of `v` is the
/// glyph of digit `(v / 16^(width - 1 - i)) % 16`.
pub proof fn lemma_hex_positional(v: nat, width: nat, upper: bool)
    ensures
        hex(v, width, upper).len() == width,
        forall|i: int|
            0 <= i < width ==> #[trigger] hex(v, width, upper)[i] == hex_glyphs(upper)[((v / pow16(
                (width - 1 - i) as nat,
            )) % 16) as int],
    decreases width,
{
    lemma_hex_digits(v, width, upper);
    if width > 0 {
        lemma_hex_positional(v / 16, (width - 1) as nat, upper);
        lemma_hex_digit_glyph(v % 16, upper);
        let h = hex(v, width, upper);
        assert forall|i: int| 0 <= i < width implies #[trigger] h[i] == hex_glyphs(upper)[((v / pow16(
            (width - 1 - i) as nat,
        )) % 16) as int] by {
            if i < width - 1 {
                let k = (width - 1 - i) as nat;
                lemma_pow16_positive((k - 1) as nat);
                lemma_div_denominator(v as int, 16, pow16((k - 1) as nat) as int);
                assert(((width - 1) - 1 - i) as nat == (k - 1) as nat);
            } else {
                assert(pow16(0) == 1);
                assert(v / 1 == v);
            }
        }
    }
}

} // verus!
