use vstd::prelude::*;

verus! {

/// ASCII `+`, accepted by `u32::from_str_radix` ahead of the digits.
pub const PLUS: u8 = 0x2b;

/// ASCII `0`.
pub const DIGIT_0: u8 = 0x30;

/// ASCII `9`.
pub const DIGIT_9: u8 = 0x39;

/// ASCII `a`.
pub const LOWER_A: u8 = 0x61;

/// ASCII `f`.
pub const LOWER_F: u8 = 0x66;

/// ASCII `A`.
pub const UPPER_A: u8 = 0x41;

/// ASCII `F`.
pub const UPPER_F: u8 = 0x46;

/// Is `b` the ASCII code of a hexadecimal digit?
pub open spec fn is_hex_digit(b: u8) -> bool {
    (DIGIT_0 <= b && b <= DIGIT_9) || (LOWER_A <= b && b <= LOWER_F) || (UPPER_A <= b && b <= UPPER_F)
}

/// The numeric value of the hexadecimal digit `b`.
pub open spec fn hex_digit_value(b: u8) -> nat {
    if DIGIT_0 <= b && b <= DIGIT_9 {
        (b - DIGIT_0) as nat
    } else if LOWER_A <= b && b <= LOWER_F {
        (b - LOWER_A + 10) as nat
    } else {
        (b - UPPER_A + 10) as nat
    }
}

/// The value of a big-endian sequence of hexadecimal digits.
pub open spec fn hex_value(s: Seq<u8>) -> nat
    decreases s.len(),
{
    if s.len() == 0 {
        0
    } else {
        hex_value(s.drop_last()) * 16 + hex_digit_value(s.last())
    }
}

/// The digits of a hexadecimal field once the optional leading `+` that
/// `u32::from_str_radix` accepts is stripped.
pub open spec fn strip_plus(s: Seq<u8>) -> Seq<u8> {
    if s.len() > 0 && s[0] == PLUS {
        s.drop_first()
    } else {
        s
    }
}

/// Does `s` read as a 32-bit hexadecimal integer: after an optional leading
/// `+`, at least one digit, nothing but digits, and a value that fits `u32`?
pub open spec fn is_hex_u32(s: Seq<u8>) -> bool {
    let t = strip_plus(s);
    &&& t.len() > 0
    &&& forall|i: int| 0 <= i < t.len() ==> is_hex_digit(t[i])
    &&& hex_value(t) <= u32::MAX
}

/// A longer run of digits never has a smaller value.
proof fn lemma_hex_value_take_mono(s: Seq<u8>, i: int, j: int)
    requires
        0 <= i <= j <= s.len(),
    ensures
        hex_value(s.take(i)) <= hex_value(s.take(j)),
    decreases j - i,
{
    if i < j {
        lemma_hex_value_take_mono(s, i, j - 1);
        assert(s.take(j).drop_last() =~= s.take(j - 1));
        assert(hex_value(s.take(j)) == hex_value(s.take(j - 1)) * 16 + hex_digit_value(
            s.take(j).last(),
        ));
    } else {
        assert(s.take(i) == s.take(j));
    }
}

/// Read a big-endian hexadecimal integer, as `u32::from_str_radix(_, 16)`
/// reads it: an optional leading `+`, then one or more digits of either
/// case; `None` on an empty field, a non-digit, or a value above `u32`.
pub fn parse_hex_u32(s: &[u8]) -> (r: Option<u32>)
    ensures
        r is Some <==> is_hex_u32(s@),
        r is Some ==> r->0 as nat == hex_value(strip_plus(s@)),
{
    let n = s.len();
    let start: usize = if n > 0 && *vstd::slice::slice_index_get(s, 0) == PLUS {
        1
    } else {
        0
    };
    proof {
        assert(strip_plus(s@) =~= s@.skip(start as int));
    }
    if start >= n {
        return None;
    }
    let ghost t = s@.skip(start as int);
    let mut acc: u32 = 0;
    let mut i: usize = start;
    while i < n
        invariant
            start <= i <= n == s@.len(),
            start < n,
            t =~= s@.skip(start as int),
            t == strip_plus(s@),
            forall|j: int| 0 <= j < i - start ==> is_hex_digit(t[j]),
            acc as nat == hex_value(t.take(i - start)),
        decreases n - i,
    {
        let b = *vstd::slice::slice_index_get(s, i);
        proof {
            assert(t[i - start] == s@[i as int]);
        }
        let d: u32 = if DIGIT_0 <= b && b <= DIGIT_9 {
            (b - DIGIT_0) as u32
        } else if LOWER_A <= b && b <= LOWER_F {
            (b - LOWER_A) as u32 + 10
        } else if UPPER_A <= b && b <= UPPER_F {
            (b - UPPER_A) as u32 + 10
        } else {
            return None;
        };
        proof {
            assert(is_hex_digit(t[i - start]));
            assert(d as nat == hex_digit_value(t[i - start]));
            assert(t.take(i - start + 1).drop_last() =~= t.take(i - start));
            assert(t.take(i - start + 1).last() == t[i - start]);
        }
        if acc > 0x0fff_ffff {
            proof {
                assert(hex_value(t.take(i - start + 1)) == acc as nat * 16 + d as nat);
                assert(hex_value(t.take(i - start + 1)) > u32::MAX);
                lemma_hex_value_take_mono(t, i - start + 1, t.len() as int);
                assert(t.take(t.len() as int) =~= t);
                assert(hex_value(t) > u32::MAX);
            }
            return None;
        }
        acc = acc * 16 + d;
        i = i + 1;
    }
    proof {
        assert(t.take(t.len() as int) =~= t);
    }
    Some(acc)
}

/// The lowercase ASCII digit of the value `d`, for `d < 16`.
pub open spec fn hex_digit_char(d: nat) -> u8 {
    if d < 10 {
        (d + DIGIT_0) as u8
    } else {
        (d - 10 + LOWER_A) as u8
    }
}

/// The shortest lowercase hexadecimal rendering of `n`; `"0"` for zero.
pub open spec fn hex_repr(n: nat) -> Seq<u8>
    decreases n,
{
    if n < 16 {
        seq![hex_digit_char(n)]
    } else {
        hex_repr(n / 16) + seq![hex_digit_char(n % 16)]
    }
}

/// Render `n` in lowercase hexadecimal with no prefix and no leading zeros,
/// as the command payloads carry it.
pub fn u32_to_hex(n: u32) -> (v: Vec<u8>)
    ensures
        v@ == hex_repr(n as nat),
{
    let mut v: Vec<u8> = Vec::new();
    let mut cur: u32 = n;
    loop
        invariant_except_break
            hex_repr(n as nat) =~= hex_repr(cur as nat) + v@,
        ensures
            hex_repr(n as nat) == v@,
        decreases cur,
    {
        let d: u32 = cur % 16;
        let c: u8 = if d < 10 {
            d as u8 + DIGIT_0
        } else {
            (d as u8 - 10) + LOWER_A
        };
        proof {
            assert(c == hex_digit_char((cur % 16) as nat));
        }
        v.insert(0, c);
        let prev = cur;
        cur = cur / 16;
        proof {
            if prev >= 16 {
                assert(hex_repr(prev as nat) =~= hex_repr(cur as nat) + seq![
                    hex_digit_char((prev % 16) as nat),
                ]);
            }
        }
        if cur == 0 {
            proof {
                if prev < 16 {
                    assert(hex_repr(prev as nat) =~= seq![hex_digit_char(prev as nat)]);
                }
            }
            break;
        }
    }
    v
}

} // verus!
