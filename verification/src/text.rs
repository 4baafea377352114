//! Numbers and identifiers as text.
use vstd::prelude::*;
use crate::patch::hex_digits;

verus! {

/// The decimal digits of `n`, without leading zeros.
pub open spec fn dec_text(n: nat) -> Seq<char>
    decreases n,
{
    if n < 10 {
        seq![hex_digits()[n as int]]
    } else {
        dec_text(n / 10) + seq![hex_digits()[(n % 10) as int]]
    }
}

/// A signed number in decimal, with a leading `-` when negative.
pub open spec fn int_text(i: int) -> Seq<char> {
    if i < 0 {
        seq!['-'] + dec_text((-i) as nat)
    } else {
        dec_text(i as nat)
    }
}

/// The `n` low-order hexadecimal digits of `x`, most significant first.
pub open spec fn hex_fixed(x: nat, n: nat) -> Seq<char>
    decreases n,
{
    if n == 0 {
        Seq::empty()
    } else {
        hex_fixed(x / 16, (n - 1) as nat) + seq![hex_digits()[(x % 16) as int]]
    }
}

pub proof fn lemma_hex_fixed_len(x: nat, n: nat)
    ensures
        hex_fixed(x, n).len() == n,
    decreases n,
{
    if n > 0 {
        lemma_hex_fixed_len(x / 16, (n - 1) as nat);
    }
}

/// An identifier as text: 32 lowercase hexadecimal digits.
pub open spec fn id_text(id: u128) -> Seq<char> {
    hex_fixed(id as nat, 32)
}

/// `true` or `false`.
pub open spec fn bool_text(b: bool) -> Seq<char> {
    if b {
        seq!['t', 'r', 'u', 'e']
    } else {
        seq!['f', 'a', 'l', 's', 'e']
    }
}

/// Appends one hexadecimal digit.
pub fn push_hex_digit(out: &mut String, d: u128)
    requires
        d < 16,
    ensures
        final(out)@ == old(out)@ + seq![hex_digits()[d as int]],
{
    let digits = "0123456789abcdef";
    proof {
        reveal_strlit("0123456789abcdef");
        assert(digits@ =~= hex_digits());
    }
    let i = d as usize;
    let piece = digits.substring_char(i, i + 1);
    proof {
        assert(piece@ =~= seq![hex_digits()[d as int]]);
    }
    out.append(piece);
}

/// Appends `n` in decimal.
pub fn push_dec(out: &mut String, n: u128)
    ensures
        final(out)@ == old(out)@ + dec_text(n as nat),
    decreases n,
{
    if n < 10 {
        push_hex_digit(out, n);
    } else {
        let ghost start = out@;
        push_dec(out, n / 10);
        push_hex_digit(out, n % 10);
        assert(out@ =~= start + dec_text(n as nat));
    }
}

/// Appends a signed number in decimal.
pub fn push_int(out: &mut String, i: i64)
    ensures
        final(out)@ == old(out)@ + int_text(i as int),
{
    let ghost start = out@;
    if i < 0 {
        out.append("-");
        proof {
            reveal_strlit("-");
        }
        let m: i128 = -(i as i128);
        push_dec(out, m as u128);
        assert(out@ =~= start + int_text(i as int));
    } else {
        push_dec(out, i as u128);
    }
}

/// Appends the `n` low-order hexadecimal digits of `x`.
pub fn push_hex_fixed(out: &mut String, x: u128, n: usize)
    ensures
        final(out)@ == old(out)@ + hex_fixed(x as nat, n as nat),
    decreases n,
{
    if n > 0 {
        let ghost start = out@;
        push_hex_fixed(out, x / 16, n - 1);
        push_hex_digit(out, x % 16);
        assert(out@ =~= start + hex_fixed(x as nat, n as nat));
    }
}

/// Appends an identifier as 32 hexadecimal digits.
pub fn push_id_text(out: &mut String, id: u128)
    ensures
        final(out)@ == old(out)@ + id_text(id),
{
    push_hex_fixed(out, id, 32);
}

/// An identifier as text.
pub fn id_string(id: u128) -> (s: String)
    ensures
        s@ == id_text(id),
        s@.len() == 32,
{
    proof {
        lemma_hex_fixed_len(id as nat, 32);
    }
    let mut s = String::new();
    push_id_text(&mut s, id);
    assert(s@ =~= id_text(id));
    s
}

/// Appends `true` or `false`.
pub fn push_bool(out: &mut String, b: bool)
    ensures
        final(out)@ == old(out)@ + bool_text(b),
{
    if b {
        out.append("true");
        proof {
            reveal_strlit("true");
        }
    } else {
        out.append("false");
        proof {
            reveal_strlit("false");
        }
    }
    assert(out@ =~= old(out)@ + bool_text(b));
}


/// The value of a lowercase hexadecimal digit; 16 for any other character.
pub open spec fn hex_value_of(c: char) -> nat {
    if '0' <= c && c <= '9' {
        (c as int - '0' as int) as nat
    } else if 'a' <= c && c <= 'f' {
        (c as int - 'a' as int + 10) as nat
    } else {
        16
    }
}

/// Every character of `s` is a lowercase hexadecimal digit.
pub open spec fn all_hex_digits(s: Seq<char>) -> bool {
    forall|i: int| 0 <= i < s.len() ==> #[trigger] hex_value_of(s[i]) < 16
}

/// The number that the hexadecimal digits `s` stand for, most significant first.
pub open spec fn hex_number(s: Seq<char>) -> nat
    decreases s.len(),
{
    if s.len() == 0 {
        0
    } else {
        hex_number(s.drop_last()) * 16 + hex_value_of(s.last())
    }
}

/// Sixteen to the power `n`.
pub open spec fn p16(n: nat) -> nat
    decreases n,
{
    if n == 0 {
        1
    } else {
        16 * p16((n - 1) as nat)
    }
}

/// The identifier that a text of 32 lowercase hexadecimal digits stands for.
pub open spec fn id_of_text(s: Seq<char>) -> Option<u128> {
    if s.len() == 32 && all_hex_digits(s) {
        Some(hex_number(s) as u128)
    } else {
        None
    }
}

proof fn lemma_digit_roundtrip(k: nat)
    requires
        k < 16,
    ensures
        hex_value_of(hex_digits()[k as int]) == k,
{
    if k == 0 {} else if k == 1 {} else if k == 2 {} else if k == 3 {} else if k == 4 {}
    else if k == 5 {} else if k == 6 {} else if k == 7 {} else if k == 8 {} else if k == 9 {}
    else if k == 10 {} else if k == 11 {} else if k == 12 {} else if k == 13 {} else if k == 14 {}
    else {}
}

proof fn lemma_char_roundtrip(c: char)
    requires
        hex_value_of(c) < 16,
    ensures
        hex_digits()[hex_value_of(c) as int] == c,
{
    let k = hex_value_of(c);
    if k == 0 {} else if k == 1 {} else if k == 2 {} else if k == 3 {} else if k == 4 {}
    else if k == 5 {} else if k == 6 {} else if k == 7 {} else if k == 8 {} else if k == 9 {}
    else if k == 10 {} else if k == 11 {} else if k == 12 {} else if k == 13 {} else if k == 14 {}
    else {}
}

/// Hexadecimal text is made of hexadecimal digits.
pub proof fn lemma_hex_fixed_digits(x: nat, n: nat)
    ensures
        all_hex_digits(hex_fixed(x, n)),
        hex_fixed(x, n).len() == n,
    decreases n,
{
    if n > 0 {
        lemma_hex_fixed_digits(x / 16, (n - 1) as nat);
        lemma_digit_roundtrip(x % 16);
        let s = hex_fixed(x, n);
        assert forall|i: int| 0 <= i < s.len() implies #[trigger] hex_value_of(s[i]) < 16 by {
            if i < n - 1 {
                assert(s[i] == hex_fixed(x / 16, (n - 1) as nat)[i]);
            }
        }
    }
}

/// Reading hexadecimal digits and writing the number back gives the digits.
pub proof fn lemma_hex_roundtrip(s: Seq<char>)
    requires
        all_hex_digits(s),
    ensures
        hex_fixed(hex_number(s), s.len()) == s,
        hex_number(s) < p16(s.len()),
    decreases s.len(),
{
    if s.len() > 0 {
        let t = s.drop_last();
        assert(all_hex_digits(t)) by {
            assert forall|i: int| 0 <= i < t.len() implies #[trigger] hex_value_of(t[i]) < 16 by {
                assert(t[i] == s[i]);
            }
        }
        lemma_hex_roundtrip(t);
        let a = hex_number(t);
        let d = hex_value_of(s.last());
        assert(hex_value_of(s[s.len() - 1]) < 16);
        let v = a * 16 + d;
        assert(v / 16 == a && v % 16 == d) by (nonlinear_arith)
            requires
                v == a * 16 + d,
                d < 16,
        ;
        lemma_char_roundtrip(s.last());
        assert(v < p16(s.len())) by (nonlinear_arith)
            requires
                v == a * 16 + d,
                d < 16,
                a < p16(t.len()),
                p16(s.len()) == 16 * p16(t.len()),
        ;
        assert(hex_fixed(v, s.len()) =~= s);
    }
}

/// The identifier that `s` names, when `s` is 32 lowercase hexadecimal digits.
pub fn parse_id_text(s: &str) -> (r: Option<u128>)
    ensures
        r == id_of_text(s@),
        r matches Some(id) ==> id_text(id) == s@,
        r is None ==> forall|id: u128| id_text(id) != s@,
{
    let cs = crate::strmap::chars_of(s);
    if cs.len() != 32 {
        proof {
            assert forall|id: u128| id_text(id) != s@ by {
                lemma_hex_fixed_digits(id as nat, 32);
            }
        }
        return None;
    }
    let mut v: u128 = 0;
    let mut i: usize = 0;
    proof {
        assert(cs@.take(0) =~= Seq::<char>::empty());
        lemma_p16_32();
    }
    while i < 32
        invariant
            cs@ == s@,
            cs@.len() == 32,
            i <= 32,
            v == hex_number(cs@.take(i as int)),
            v < p16(i as nat),
            all_hex_digits(cs@.take(i as int)),
            p16(32) == 0x1_0000_0000_0000_0000_0000_0000_0000_0000nat,
        decreases 32 - i,
    {
        let c = cs[i];
        let d: u128 = if '0' <= c && c <= '9' {
            (c as u32 - '0' as u32) as u128
        } else if 'a' <= c && c <= 'f' {
            (c as u32 - 'a' as u32 + 10) as u128
        } else {
            16
        };
        assert(d == hex_value_of(c));
        if d >= 16 {
            proof {
                assert forall|id: u128| id_text(id) != s@ by {
                    lemma_hex_fixed_digits(id as nat, 32);
                    if id_text(id) == s@ {
                        assert(hex_value_of(s@[i as int]) < 16);
                    }
                }
            }
            return None;
        }
        proof {
            lemma_p16_monotone((i + 1) as nat, 32);
            assert(v * 16 + d < p16((i + 1) as nat)) by (nonlinear_arith)
                requires
                    v < p16(i as nat),
                    d < 16,
                    p16((i + 1) as nat) == 16 * p16(i as nat),
            ;
            assert(cs@.take(i + 1).drop_last() =~= cs@.take(i as int));
            assert(cs@.take(i + 1).last() == c);
        }
        v = v * 16 + d;
        i = i + 1;
        proof {
            let t = cs@.take(i as int);
            assert forall|j: int| 0 <= j < t.len() implies #[trigger] hex_value_of(t[j]) < 16 by {
                if j < i - 1 {
                    assert(t[j] == cs@.take(i - 1)[j]);
                }
            }
        }
    }
    proof {
        assert(cs@.take(32) =~= cs@);
        lemma_hex_roundtrip(cs@);
    }
    Some(v)
}

proof fn lemma_p16_32()
    ensures
        p16(32) == 0x1_0000_0000_0000_0000_0000_0000_0000_0000nat,
{
    reveal_with_fuel(p16, 33);
}

proof fn lemma_p16_monotone(a: nat, b: nat)
    requires
        a <= b,
    ensures
        p16(a) <= p16(b),
    decreases b,
{
    if a < b {
        lemma_p16_monotone(a, (b - 1) as nat);
    }
}


proof fn lemma_p16_positive(n: nat)
    ensures
        p16(n) > 0,
    decreases n,
{
    if n > 0 {
        lemma_p16_positive((n - 1) as nat);
    }
}

/// Reading back the hexadecimal digits of a number gives the number modulo
/// sixteen to the number of digits.
pub proof fn lemma_hex_number_of_fixed(x: nat, n: nat)
    ensures
        hex_number(hex_fixed(x, n)) == x % p16(n),
    decreases n,
{
    if n > 0 {
        let s = hex_fixed(x, n);
        lemma_hex_fixed_digits(x, n);
        lemma_hex_number_of_fixed(x / 16, (n - 1) as nat);
        assert(s.drop_last() =~= hex_fixed(x / 16, (n - 1) as nat));
        lemma_digit_roundtrip(x % 16);
        lemma_p16_positive((n - 1) as nat);
        vstd::arithmetic::div_mod::lemma_mod_breakdown(x as int, 16, p16((n - 1) as nat) as int);
    }
}

/// The text of an identifier reads back as the identifier.
pub proof fn law_id_text_roundtrip(id: u128)
    ensures
        id_of_text(id_text(id)) == Some(id),
{
    lemma_hex_fixed_digits(id as nat, 32);
    lemma_hex_number_of_fixed(id as nat, 32);
    lemma_p16_32();
    assert((id as nat) % p16(32) == id as nat);
}

} // verus!
