//! Lower-case hexadecimal rendering of integers, as `format!("{:x}")` and
//! `format!("{:08x}")` render them.

use vstd::prelude::*;

use crate::text::push_char;

verus! {

/// The lower-case hexadecimal digit for a value below 16.
pub open spec fn hex_digit(d: nat) -> char {
    if d < 10 {
        (48 + d) as char
    } else {
        (87 + d) as char
    }
}

/// The shortest lower-case hexadecimal rendering of `n` (at least one digit).
pub open spec fn hex_of(n: nat) -> Seq<char>
    decreases n,
{
    if n < 16 {
        seq![hex_digit(n)]
    } else {
        hex_of(n / 16).push(hex_digit(n % 16))
    }
}

/// `s` with `'0'` characters in front until it is at least `width` long.
pub open spec fn zero_pad(s: Seq<char>, width: nat) -> Seq<char> {
    if s.len() >= width {
        s
    } else {
        Seq::new((width - s.len()) as nat, |i: int| '0') + s
    }
}

/// Whether `c` is one of the characters `0`-`9`, `a`-`f`.
pub open spec fn is_hex_char(c: char) -> bool {
    (48 <= c as int && c as int <= 57) || (97 <= c as int && c as int <= 102)
}

/// The value of a lower-case hexadecimal digit character.
pub open spec fn hex_char_value(c: char) -> nat {
    if 48 <= c as int && c as int <= 57 {
        (c as int - 48) as nat
    } else if 97 <= c as int && c as int <= 102 {
        (c as int - 87) as nat
    } else {
        0
    }
}

/// The number that a string of hexadecimal digits denotes, most significant first.
pub open spec fn hex_value(s: Seq<char>) -> nat
    decreases s.len(),
{
    if s.len() == 0 {
        0
    } else {
        hex_value(s.drop_last()) * 16 + hex_char_value(s.last())
    }
}

/// A digit character is a hexadecimal character denoting its value.
pub proof fn lemma_hex_digit_value(d: nat)
    requires
        d < 16,
    ensures
        is_hex_char(hex_digit(d)),
        hex_char_value(hex_digit(d)) == d,
        hex_digit(d) == '0' <==> d == 0,
{
}

/// The rendering of `n` is made of hexadecimal characters, denotes `n`,
/// and has no leading zero except for `n == 0` itself, which is `0`.
pub proof fn law_hex_of_denotes(n: nat)
    ensures
        forall|i: int| 0 <= i < hex_of(n).len() ==> is_hex_char(#[trigger] hex_of(n)[i]),
        hex_value(hex_of(n)) == n,
        hex_of(n).len() >= 1,
        hex_of(n)[0] == '0' ==> hex_of(n) == seq!['0'],
        n == 0 ==> hex_of(n) == seq!['0'],
    decreases n,
{
    lemma_hex_digit_value(n % 16);
    if n < 16 {
        lemma_hex_digit_value(n);
        assert(hex_of(n) == seq![hex_digit(n)]);
        assert(hex_of(n).drop_last() =~= Seq::<char>::empty());
        assert(hex_value(Seq::<char>::empty()) == 0);
        assert(hex_value(hex_of(n)) == hex_value(hex_of(n).drop_last()) * 16 + hex_char_value(
            hex_of(n).last(),
        ));
    } else {
        law_hex_of_denotes(n / 16);
        let h = hex_of(n / 16);
        assert(h.push(hex_digit(n % 16)).drop_last() =~= h);
        assert(hex_of(n)[0] == h[0]);
        assert forall|i: int| 0 <= i < hex_of(n).len() implies is_hex_char(
            #[trigger] hex_of(n)[i],
        ) by {
            if i < h.len() {
                assert(hex_of(n)[i] == h[i]);
            }
        }
        assert(hex_value(hex_of(n)) == hex_value(h) * 16 + hex_char_value(hex_digit(n % 16)));
        assert(n == (n / 16) * 16 + n % 16);
        if h[0] == '0' {
            assert(h == seq!['0']);
            assert(h.drop_last() =~= Seq::<char>::empty());
            assert(hex_value(Seq::<char>::empty()) == 0);
            assert(hex_char_value(h.last()) == 0);
            assert(hex_value(h) == hex_value(h.drop_last()) * 16 + hex_char_value(h.last()));
        }
    }
}

/// Different numbers have different renderings.
pub proof fn law_hex_of_injective(a: nat, b: nat)
    requires
        hex_of(a) == hex_of(b),
    ensures
        a == b,
{
    law_hex_of_denotes(a);
    law_hex_of_denotes(b);
}

/// The character for a hexadecimal digit value.
pub fn hex_digit_char(d: u8) -> (c: char)
    requires
        d < 16,
    ensures
        c == hex_digit(d as nat),
{
    if d < 10 {
        (48 + d) as char
    } else {
        (87 + d) as char
    }
}

/// Appends the shortest hexadecimal rendering of `n` to `out`.
pub fn push_hex(out: &mut String, n: u64)
    ensures
        final(out)@ == old(out)@ + hex_of(n as nat),
    decreases n,
{
    if n >= 16 {
        push_hex(out, n / 16);
    }
    let d: u8 = (n % 16) as u8;
    push_char(out, hex_digit_char(d));
    proof {
        assert(hex_of(n as nat) == if n < 16 {
            seq![hex_digit(n as nat)]
        } else {
            hex_of((n / 16) as nat).push(hex_digit((n % 16) as nat))
        });
    }
}

/// The number of digits in the shortest hexadecimal rendering of `n`.
pub fn hex_width(n: u64) -> (w: usize)
    ensures
        w == hex_of(n as nat).len(),
        1 <= w <= 16,
    decreases n,
{
    if n < 16 {
        1
    } else {
        let w = hex_width(n / 16);
        proof {
            lemma_hex_width_bound(n as nat);
        }
        w + 1
    }
}

/// A `u64` has between one and sixteen hexadecimal digits.
proof fn lemma_hex_width_bound(n: nat)
    requires
        n <= u64::MAX,
    ensures
        1 <= hex_of(n).len() <= 16,
{
    reveal_with_fuel(pow16, 17);
    assert(pow16(16) == 0x1_0000_0000_0000_0000);
    lemma_hex_len_le(n, 15);
    lemma_hex_len_pos(n);
}

/// Every rendering has at least one digit.
proof fn lemma_hex_len_pos(n: nat)
    ensures
        hex_of(n).len() >= 1,
    decreases n,
{
    if n >= 16 {
        lemma_hex_len_pos(n / 16);
    }
}

/// The rendering of `n` has at most `k + 1` digits when `n < 16^(k+1)`.
pub proof fn lemma_hex_len_le(n: nat, k: nat)
    requires
        n < pow16(k + 1),
    ensures
        hex_of(n).len() <= k + 1,
    decreases k,
{
    if n >= 16 {
        if k == 0 {
            assert(pow16(1) == 16 * pow16(0));
        } else {
            assert(pow16(k + 1) == 16 * pow16(k));
            assert(n / 16 < pow16(k)) by (nonlinear_arith)
                requires
                    n < 16 * pow16(k),
            ;
            lemma_hex_len_le(n / 16, (k - 1) as nat);
        }
    }
}

/// A number below 2^32 has at most eight hexadecimal digits.
pub proof fn lemma_hex_len_u32(n: nat)
    requires
        n < 0x1_0000_0000,
    ensures
        hex_of(n).len() <= 8,
{
    reveal_with_fuel(pow16, 9);
    assert(pow16(8) == 0x1_0000_0000);
    lemma_hex_len_le(n, 7);
}

/// Leading zeros do not change the value of a hexadecimal string.
pub proof fn lemma_hex_value_leading_zeros(z: nat, s: Seq<char>)
    ensures
        hex_value(Seq::new(z, |i: int| '0') + s) == hex_value(s),
    decreases s.len(), z,
{
    let zs = Seq::new(z, |i: int| '0');
    if s.len() == 0 {
        assert(zs + s =~= zs);
        if z > 0 {
            assert(zs.drop_last() =~= Seq::new((z - 1) as nat, |i: int| '0'));
            lemma_hex_value_leading_zeros((z - 1) as nat, s);
            assert(Seq::new((z - 1) as nat, |i: int| '0') + s =~= Seq::new((z - 1) as nat, |i: int| '0'));
        }
    } else {
        assert((zs + s).drop_last() =~= zs + s.drop_last());
        lemma_hex_value_leading_zeros(z, s.drop_last());
    }
}

/// Zero padding keeps the value and adds only hexadecimal characters.
pub proof fn lemma_zero_pad_value(n: nat, width: nat)
    ensures
        hex_value(zero_pad(hex_of(n), width)) == n,
        forall|i: int|
            0 <= i < zero_pad(hex_of(n), width).len() ==> is_hex_char(
                #[trigger] zero_pad(hex_of(n), width)[i],
            ),
        zero_pad(hex_of(n), width).len() == if hex_of(n).len() >= width {
            hex_of(n).len()
        } else {
            width
        },
{
    law_hex_of_denotes(n);
    let h = hex_of(n);
    if h.len() < width {
        let z = (width - h.len()) as nat;
        lemma_hex_value_leading_zeros(z, h);
        assert forall|i: int| 0 <= i < zero_pad(h, width).len() implies is_hex_char(
            #[trigger] zero_pad(h, width)[i],
        ) by {
            if i >= z {
                assert(zero_pad(h, width)[i] == h[i - z]);
            }
        }
    }
}

/// Sixteen to the power `k`.
pub open spec fn pow16(k: nat) -> nat
    decreases k,
{
    if k == 0 {
        1
    } else {
        16 * pow16((k - 1) as nat)
    }
}

/// Appends the hexadecimal rendering of `n`, zero-padded to `width`, to `out`:
/// what `format!("{:0w$x}", n)` writes.
pub fn push_hex_padded(out: &mut String, n: u64, width: usize)
    ensures
        final(out)@ == old(out)@ + zero_pad(hex_of(n as nat), width as nat),
{
    let w = hex_width(n);
    let ghost start = out@;
    if w < width {
        let mut k: usize = 0;
        while k < width - w
            invariant
                w < width,
                k <= width - w,
                out@ == start + Seq::new(k as nat, |i: int| '0'),
            decreases width - w - k,
        {
            push_char(out, '0');
            proof {
                assert(Seq::new(k as nat, |i: int| '0').push('0') =~= Seq::new((k + 1) as nat, |i: int| '0'));
            }
            k = k + 1;
        }
    }
    push_hex(out, n);
    proof {
        if w < width {
            assert(start + Seq::new((width - w) as nat, |i: int| '0') + hex_of(n as nat) =~= start
                + (Seq::new((width - w) as nat, |i: int| '0') + hex_of(n as nat)));
        } else {
            assert(out@ =~= start + hex_of(n as nat));
        }
    }
}

/// The shortest lower-case hexadecimal rendering of `n`, as `format!("{:x}", n)`.
pub fn format_hex(n: u64) -> (s: String)
    ensures
        s@ == hex_of(n as nat),
{
    let mut s = String::new();
    push_hex(&mut s, n);
    proof {
        assert(s@ =~= hex_of(n as nat));
    }
    s
}

} // verus!
