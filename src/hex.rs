//! Decoding of a hexadecimal byte string, as given to the disassembler.
//!
//! A string that starts with `0x` has every `0x` taken out; the characters
//! left are then read in pairs of hex digits, one byte per pair. A last
//! character without a partner is ignored.
use crate::grammar::is_hex_digit;
use crate::scan::{chars_of, hex_digit};
use vstd::prelude::*;

verus! {

/// The characters of `s` from `j` on, with each `0x` taken out (scanning
/// left to right, so `00xx` leaves `0x`).
pub open spec fn strip_markers_from(s: Seq<char>, j: nat) -> Seq<char>
    decreases s.len() - j,
{
    if j + 1 < s.len() && s[j as int] == '0' && s[(j + 1) as int] == 'x' {
        strip_markers_from(s, j + 2)
    } else if j < s.len() {
        seq![s[j as int]] + strip_markers_from(s, j + 1)
    } else {
        Seq::empty()
    }
}

/// Whether `s` starts with `0x`.
pub open spec fn has_marker(s: Seq<char>) -> bool {
    s.len() >= 2 && s[0] == '0' && s[1] == 'x'
}

/// The digits that are read in pairs: `s` with each `0x` taken out if it
/// starts with one, else `s` as it is.
pub open spec fn hex_digits_of(s: Seq<char>) -> Seq<char> {
    if has_marker(s) {
        strip_markers_from(s, 0)
    } else {
        s
    }
}

/// The value of the hex digit `c`.
pub open spec fn hex_value(c: char) -> int {
    if '0' <= c && c <= '9' {
        c as int - '0' as int
    } else if 'a' <= c && c <= 'f' {
        c as int - 'a' as int + 10
    } else {
        c as int - 'A' as int + 10
    }
}

/// Whether every character of `t` that belongs to a pair is a hex digit.
pub open spec fn pairs_are_hex(t: Seq<char>) -> bool {
    forall|i: int| 0 <= i < 2 * (t.len() / 2) ==> is_hex_digit(#[trigger] t[i])
}

/// The byte that the `k`-th pair of `t` stands for.
pub open spec fn pair_value(t: Seq<char>, k: int) -> int {
    16 * hex_value(t[2 * k]) + hex_value(t[2 * k + 1])
}

fn hex_digit_value(c: char) -> (r: u8)
    requires
        is_hex_digit(c),
    ensures
        r == hex_value(c),
        r < 16,
{
    if '0' <= c && c <= '9' {
        (c as u32 - '0' as u32) as u8
    } else if 'a' <= c && c <= 'f' {
        (c as u32 - 'a' as u32 + 10) as u8
    } else {
        (c as u32 - 'A' as u32 + 10) as u8
    }
}

/// `cs` with each `0x` taken out.
fn strip_markers(cs: &Vec<char>) -> (r: Vec<char>)
    ensures
        r@ == strip_markers_from(cs@, 0),
{
    let mut out: Vec<char> = Vec::new();
    let mut j: usize = 0;
    while j < cs.len()
        invariant
            j <= cs.len(),
            out@ + strip_markers_from(cs@, j as nat) == strip_markers_from(cs@, 0),
        decreases cs.len() - j,
    {
        if j + 1 < cs.len() && cs[j] == '0' && cs[j + 1] == 'x' {
            j = j + 2;
        } else {
            let ghost rest = strip_markers_from(cs@, (j + 1) as nat);
            proof {
                assert(out@ + (seq![cs@[j as int]] + rest) == out@.push(cs@[j as int]) + rest);
            }
            out.push(cs[j]);
            j = j + 1;
        }
    }
    assert(strip_markers_from(cs@, j as nat) == Seq::<char>::empty());
    assert(out@ + Seq::<char>::empty() == out@);
    out
}

/// The bytes that the hexadecimal string `s` spells, or `None` where a
/// character that belongs to a pair is not a hex digit.
pub fn decode_hex(s: &str) -> (r: Option<Vec<u8>>)
    ensures
        r is Some <==> pairs_are_hex(hex_digits_of(s@)),
        r matches Some(bytes) ==> {
            &&& bytes@.len() == hex_digits_of(s@).len() / 2
            &&& forall|k: int| 0 <= k < bytes@.len() ==> bytes@[k] == pair_value(hex_digits_of(s@), k)
        },
{
    let cs = chars_of(s);
    let digits = if cs.len() >= 2 && cs[0] == '0' && cs[1] == 'x' {
        strip_markers(&cs)
    } else {
        cs
    };
    let ghost t = hex_digits_of(s@);
    assert(digits@ == t);
    let n = digits.len() / 2;
    let mut bytes: Vec<u8> = Vec::new();
    let mut k: usize = 0;
    while k < n
        invariant
            t == hex_digits_of(s@),
            digits@ == t,
            n == t.len() / 2,
            k <= n,
            bytes@.len() == k,
            forall|i: int| 0 <= i < 2 * k ==> is_hex_digit(#[trigger] t[i]),
            forall|m: int| 0 <= m < k ==> bytes@[m] == pair_value(t, m),
        decreases n - k,
    {
        assert(2 * k + 1 < 2 * (t.len() / 2) <= digits.len()) by (nonlinear_arith)
            requires
                k < n,
                n == t.len() / 2,
                digits@.len() == t.len(),
        ;
        let a = digits[2 * k];
        let b = digits[2 * k + 1];
        if !hex_digit(a) || !hex_digit(b) {
            assert(!pairs_are_hex(t)) by {
                if !is_hex_digit(a) {
                    assert(!is_hex_digit(t[2 * k as int]));
                } else {
                    assert(!is_hex_digit(t[2 * k + 1]));
                }
            }
            return None;
        }
        let hi = hex_digit_value(a);
        let lo = hex_digit_value(b);
        bytes.push(16 * hi + lo);
        proof {
            assert forall|i: int| 0 <= i < 2 * (k + 1) implies is_hex_digit(#[trigger] t[i]) by {
                if i >= 2 * k {
                    assert(i == 2 * k || i == 2 * k + 1);
                }
            }
        }
        k = k + 1;
    }
    Some(bytes)
}

} // verus!
