//! Text rendering of integers and byte keys: decimal for numbers, lowercase
//! hexadecimal (two characters per byte, no prefix, no separators) for bytes.
//!
//! The spec functions say what the text is; the exec functions build it and
//! are proved to append exactly that text. The lemmas show that the text
//! can be read back: the rendering loses nothing.

use vstd::prelude::*;
use vstd::string::*;

verus! {

/// The digit character for `d` in base 16, lowercase (`0`–`9`, `a`–`f`).
/// The first ten are also the decimal digits.
pub open spec fn digit_char(d: nat) -> char {
    if d == 0 { '0' }
    else if d == 1 { '1' }
    else if d == 2 { '2' }
    else if d == 3 { '3' }
    else if d == 4 { '4' }
    else if d == 5 { '5' }
    else if d == 6 { '6' }
    else if d == 7 { '7' }
    else if d == 8 { '8' }
    else if d == 9 { '9' }
    else if d == 10 { 'a' }
    else if d == 11 { 'b' }
    else if d == 12 { 'c' }
    else if d == 13 { 'd' }
    else if d == 14 { 'e' }
    else { 'f' }
}

/// The value of a base-16 digit character, `None` for any other character.
pub open spec fn digit_value(c: char) -> Option<nat> {
    if c == '0' { Some(0) }
    else if c == '1' { Some(1) }
    else if c == '2' { Some(2) }
    else if c == '3' { Some(3) }
    else if c == '4' { Some(4) }
    else if c == '5' { Some(5) }
    else if c == '6' { Some(6) }
    else if c == '7' { Some(7) }
    else if c == '8' { Some(8) }
    else if c == '9' { Some(9) }
    else if c == 'a' { Some(10) }
    else if c == 'b' { Some(11) }
    else if c == 'c' { Some(12) }
    else if c == 'd' { Some(13) }
    else if c == 'e' { Some(14) }
    else if c == 'f' { Some(15) }
    else { None }
}

/// `c` is a decimal digit, `0`–`9`.
pub open spec fn is_decimal_digit(c: char) -> bool {
    digit_value(c) matches Some(d) && d < 10
}

/// `c` is a lowercase hexadecimal digit, `0`–`9` or `a`–`f`.
pub open spec fn is_lower_hex_digit(c: char) -> bool {
    digit_value(c) is Some
}

/// The decimal text of `n`: its digits, most significant first, with no sign,
/// no separators and no leading zero (`0` itself is the single digit `0`).
pub open spec fn decimal(n: nat) -> Seq<char>
    decreases n,
{
    if n < 10 {
        seq![digit_char(n)]
    } else {
        decimal(n / 10).push(digit_char(n % 10))
    }
}

/// The number that a string of decimal digits denotes (most significant first).
pub open spec fn decimal_value(s: Seq<char>) -> nat
    decreases s.len(),
{
    if s.len() == 0 {
        0
    } else {
        decimal_value(s.drop_last()) * 10 + match digit_value(s.last()) {
            Some(d) => d,
            None => 0,
        }
    }
}

/// The two lowercase hex digits of one byte, high nibble first.
pub open spec fn hex_byte(b: u8) -> Seq<char> {
    seq![digit_char((b / 16) as nat), digit_char((b % 16) as nat)]
}

/// The lowercase hex text of a byte sequence: two digits per byte, in order.
pub open spec fn hex(bytes: Seq<u8>) -> Seq<char>
    decreases bytes.len(),
{
    if bytes.len() == 0 {
        Seq::empty()
    } else {
        hex(bytes.drop_last()) + hex_byte(bytes.last())
    }
}

/// The bytes that a text of hex digit pairs denotes (the inverse of [`hex`]).
pub open spec fn unhex(text: Seq<char>) -> Seq<u8>
    decreases text.len(),
{
    if text.len() < 2 {
        Seq::empty()
    } else {
        let hi = text[text.len() - 2];
        let lo = text[text.len() - 1];
        let hv: nat = match digit_value(hi) { Some(d) => d, None => 0 };
        let lv: nat = match digit_value(lo) { Some(d) => d, None => 0 };
        unhex(text.subrange(0, text.len() - 2)).push((hv * 16 + lv) as u8)
    }
}

proof fn lemma_digit_round_trip(d: nat)
    requires
        d < 16,
    ensures
        digit_value(digit_char(d)) == Some(d),
{
}

/// Each decimal text is made of decimal digits only, starts with a nonzero
/// digit unless the number is zero, and reads back as the number it renders.
pub proof fn lemma_decimal_reads_back(n: nat)
    ensures
        decimal(n).len() >= 1,
        forall|i: int| 0 <= i < decimal(n).len() ==> #[trigger] is_decimal_digit(decimal(n)[i]),
        decimal(n)[0] == '0' ==> n == 0,
        decimal_value(decimal(n)) == n,
    decreases n,
{
    if n < 10 {
        lemma_digit_round_trip(n);
        assert(decimal(n).drop_last() =~= Seq::<char>::empty());
        assert(decimal_value(Seq::<char>::empty()) == 0);
    } else {
        lemma_decimal_reads_back(n / 10);
        lemma_digit_round_trip(n % 10);
        let s = decimal(n);
        assert(s.drop_last() =~= decimal(n / 10));
        assert forall|i: int| 0 <= i < s.len() implies #[trigger] is_decimal_digit(s[i]) by {
            if i < s.len() - 1 {
                assert(s[i] == decimal(n / 10)[i]);
            }
        }
        assert(s[0] == decimal(n / 10)[0]);
        assert(decimal_value(s) == decimal_value(decimal(n / 10)) * 10 + n % 10);
        assert((n / 10) * 10 + n % 10 == n);
    }
}

/// Two numbers with the same decimal text are the same number.
pub proof fn lemma_decimal_injective(m: nat, n: nat)
    requires
        decimal(m) == decimal(n),
    ensures
        m == n,
{
    lemma_decimal_reads_back(m);
    lemma_decimal_reads_back(n);
}

/// The hex text of `bytes` has exactly two lowercase hex digits per byte.
pub proof fn lemma_hex_shape(bytes: Seq<u8>)
    ensures
        hex(bytes).len() == 2 * bytes.len(),
        forall|i: int| 0 <= i < hex(bytes).len() ==> #[trigger] is_lower_hex_digit(hex(bytes)[i]),
    decreases bytes.len(),
{
    if bytes.len() > 0 {
        let rest = bytes.drop_last();
        let b = bytes.last();
        lemma_hex_shape(rest);
        lemma_digit_round_trip((b / 16) as nat);
        lemma_digit_round_trip((b % 16) as nat);
        let h = hex(bytes);
        assert forall|i: int| 0 <= i < h.len() implies #[trigger] is_lower_hex_digit(h[i]) by {
            if i < hex(rest).len() {
                assert(h[i] == hex(rest)[i]);
            }
        }
    }
}

/// The hex text of `bytes` reads back as `bytes`: rendering a byte key loses
/// nothing, so distinct keys render distinctly.
pub proof fn lemma_hex_reads_back(bytes: Seq<u8>)
    ensures
        unhex(hex(bytes)) == bytes,
    decreases bytes.len(),
{
    if bytes.len() > 0 {
        let rest = bytes.drop_last();
        let b = bytes.last();
        lemma_hex_reads_back(rest);
        lemma_hex_shape(rest);
        lemma_digit_round_trip((b / 16) as nat);
        lemma_digit_round_trip((b % 16) as nat);
        let h = hex(bytes);
        assert(h.subrange(0, h.len() - 2) =~= hex(rest));
        assert(((b / 16) as nat * 16 + (b % 16) as nat) as u8 == b);
        assert(unhex(h) =~= bytes);
    }
}

/// Two byte keys with the same hex text are the same key.
pub proof fn lemma_hex_injective(a: Seq<u8>, b: Seq<u8>)
    requires
        hex(a) == hex(b),
    ensures
        a == b,
{
    lemma_hex_reads_back(a);
    lemma_hex_reads_back(b);
}

/// The base-16 digit for `d`, as a one-character string.
fn digit_str(d: u8) -> (t: &'static str)
    requires
        d < 16,
    ensures
        t@ == seq![digit_char(d as nat)],
{
    match d {
        0 => {
            proof {
                reveal_strlit("0");
            }
            "0"
        },
        1 => {
            proof {
                reveal_strlit("1");
            }
            "1"
        },
        2 => {
            proof {
                reveal_strlit("2");
            }
            "2"
        },
        3 => {
            proof {
                reveal_strlit("3");
            }
            "3"
        },
        4 => {
            proof {
                reveal_strlit("4");
            }
            "4"
        },
        5 => {
            proof {
                reveal_strlit("5");
            }
            "5"
        },
        6 => {
            proof {
                reveal_strlit("6");
            }
            "6"
        },
        7 => {
            proof {
                reveal_strlit("7");
            }
            "7"
        },
        8 => {
            proof {
                reveal_strlit("8");
            }
            "8"
        },
        9 => {
            proof {
                reveal_strlit("9");
            }
            "9"
        },
        10 => {
            proof {
                reveal_strlit("a");
            }
            "a"
        },
        11 => {
            proof {
                reveal_strlit("b");
            }
            "b"
        },
        12 => {
            proof {
                reveal_strlit("c");
            }
            "c"
        },
        13 => {
            proof {
                reveal_strlit("d");
            }
            "d"
        },
        14 => {
            proof {
                reveal_strlit("e");
            }
            "e"
        },
        _ => {
            proof {
                reveal_strlit("f");
            }
            "f"
        },
    }
}

/// Appends the base-16 digit for `d` to `s`.
pub(crate) fn push_digit(s: &mut String, d: u8)
    requires
        d < 16,
    ensures
        final(s)@ == old(s)@.push(digit_char(d as nat)),
{
    s.append(digit_str(d));
    assert(s@ =~= old(s)@.push(digit_char(d as nat)));
}

/// Appends the decimal text of `n` to `s`.
pub(crate) fn push_decimal(s: &mut String, n: u64)
    ensures
        final(s)@ == old(s)@ + decimal(n as nat),
    decreases n,
{
    if n >= 10 {
        push_decimal(s, n / 10);
    }
    let d: u8 = (n % 10) as u8;
    push_digit(s, d);
    assert(s@ =~= old(s)@ + decimal(n as nat));
}

/// Appends the lowercase hex text of `bytes` to `s`.
pub(crate) fn push_hex(s: &mut String, bytes: &[u8])
    ensures
        final(s)@ == old(s)@ + hex(bytes@),
{
    let n = bytes.len();
    let mut i: usize = 0;
    assert(bytes@.take(0) =~= Seq::<u8>::empty());
    while i < n
        invariant
            n == bytes@.len(),
            i <= n,
            s@ == old(s)@ + hex(bytes@.take(i as int)),
        decreases n - i,
    {
        let b = bytes[i];
        push_digit(s, b / 16);
        push_digit(s, b % 16);
        assert(bytes@.take(i + 1).drop_last() =~= bytes@.take(i as int));
        assert(s@ =~= old(s)@ + hex(bytes@.take(i + 1)));
        i = i + 1;
    }
    assert(bytes@.take(n as int) =~= bytes@);
}

/// The digit characters are ASCII: `0` to `9` have the codes 48 to 57, and
/// `a` to `f` (lowercase) the codes 97 to 102.
pub proof fn lemma_digit_char_is_ascii(d: nat)
    requires
        d < 16,
    ensures
        digit_char(d) as u32 == if d < 10 {
            48 + d
        } else {
            87 + d
        },
{
}

/// Every character of a byte key's rendering is an ASCII decimal digit or a
/// lowercase letter `a` to `f`; every character of a number's rendering is an
/// ASCII decimal digit.
pub proof fn lemma_rendered_text_is_ascii(bytes: Seq<u8>, n: nat)
    ensures
        forall|i: int|
            0 <= i < hex(bytes).len() ==> {
                let c = #[trigger] hex(bytes)[i] as u32;
                (48 <= c <= 57) || (97 <= c <= 102)
            },
        forall|i: int|
            0 <= i < decimal(n).len() ==> 48 <= #[trigger] decimal(n)[i] as u32 <= 57,
{
    lemma_hex_shape(bytes);
    lemma_decimal_reads_back(n);
    assert forall|i: int| 0 <= i < hex(bytes).len() implies {
        let c = #[trigger] hex(bytes)[i] as u32;
        (48 <= c <= 57) || (97 <= c <= 102)
    } by {
        assert(is_lower_hex_digit(hex(bytes)[i]));
    }
    assert forall|i: int| 0 <= i < decimal(n).len() implies 48 <= #[trigger] decimal(n)[i] as u32
        <= 57 by {
        assert(is_decimal_digit(decimal(n)[i]));
    }
}

} // verus!
