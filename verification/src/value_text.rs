use vstd::prelude::*;
use vstd::string::StrSliceExecFns;

verus! {

/// Is `c` an ASCII decimal digit?
pub open spec fn is_digit(c: char) -> bool {
    48 <= (c as u32) && (c as u32) <= 57
}

/// The end of the run of digits that starts at `from`: the first index at
/// or past `from` holding a non-digit, or the length.
pub open spec fn digit_run_end(s: Seq<char>, from: int) -> int
    decreases s.len() - from,
{
    if 0 <= from && from < s.len() && is_digit(s[from]) {
        digit_run_end(s, from + 1)
    } else {
        from
    }
}

/// Sign-and-digits, as an exponent carries them: an optional `+` or `-`,
/// then one or more digits, reaching the end of the text.
pub open spec fn is_signed_digits_at(s: Seq<char>, a: int) -> bool {
    let b = if a < s.len() && (s[a] == '+' || s[a] == '-') {
        a + 1
    } else {
        a
    };
    b < s.len() && digit_run_end(s, b) == s.len()
}

/// An exponent part: `e` or `E`, then sign-and-digits to the end.
pub open spec fn is_exp_part_at(s: Seq<char>, a: int) -> bool {
    a < s.len() && (s[a] == 'e' || s[a] == 'E') && is_signed_digits_at(s, a + 1)
}

/// A decimal number from `a` to the end: digits with an optional point
/// somewhere (at least one digit on one side of it), then an optional
/// exponent part.
pub open spec fn is_number_at(s: Seq<char>, a: int) -> bool {
    let i = digit_run_end(s, a);
    if i < s.len() && s[i] == '.' {
        let j = digit_run_end(s, i + 1);
        (i > a || j > i + 1) && (j == s.len() || is_exp_part_at(s, j))
    } else {
        i > a && (i == s.len() || is_exp_part_at(s, i))
    }
}

/// Case-insensitive match of `c` against a lowercase ASCII letter.
pub open spec fn eq_ci(c: char, lower: char) -> bool {
    c == lower || (c as u32) + 32 == (lower as u32)
}

/// The special spellings `inf`, `infinity` and `nan`, in any case, from
/// `a` to the end.
pub open spec fn is_inf_nan_at(s: Seq<char>, a: int) -> bool {
    ||| (s.len() - a == 3 && eq_ci(s[a], 'i') && eq_ci(s[a + 1], 'n') && eq_ci(s[a + 2], 'f'))
    ||| (s.len() - a == 8 && eq_ci(s[a], 'i') && eq_ci(s[a + 1], 'n') && eq_ci(s[a + 2], 'f')
        && eq_ci(s[a + 3], 'i') && eq_ci(s[a + 4], 'n') && eq_ci(s[a + 5], 'i') && eq_ci(
        s[a + 6],
        't',
    ) && eq_ci(s[a + 7], 'y'))
    ||| (s.len() - a == 3 && eq_ci(s[a], 'n') && eq_ci(s[a + 1], 'a') && eq_ci(s[a + 2], 'n'))
}

/// The texts `f64::from_str` accepts: an optional sign, then either a
/// special spelling (`inf`, `infinity`, `nan`, any case) or a decimal
/// number with an optional exponent. `f64` parsing never fails on range,
/// only on shape, so this grammar decides it exactly.
pub open spec fn is_float_literal(s: Seq<char>) -> bool {
    let a: int = if s.len() > 0 && (s[0] == '+' || s[0] == '-') {
        1
    } else {
        0
    };
    is_inf_nan_at(s, a) || is_number_at(s, a)
}

/// Walk to the end of the digit run starting at `from`.
fn digit_run(s: &str, from: usize, n: usize) -> (j: usize)
    requires
        from <= n,
        n == s@.len(),
    ensures
        from <= j <= n,
        j as int == digit_run_end(s@, from as int),
{
    let mut j = from;
    while j < n
        invariant
            from <= j <= n == s@.len(),
            digit_run_end(s@, from as int) == digit_run_end(s@, j as int),
        decreases n - j,
    {
        let c = s.get_char(j);
        let u = c as u32;
        if !(48 <= u && u <= 57) {
            return j;
        }
        j = j + 1;
    }
    j
}

/// Case-insensitive comparison against a lowercase ASCII letter.
fn char_eq_ci(c: char, lower: char) -> (r: bool)
    ensures
        r == eq_ci(c, lower),
{
    c == lower || (c as u32) + 32 == (lower as u32)
}

/// Does the text from `a` spell `inf`, `infinity` or `nan`, in any case?
fn check_inf_nan(s: &str, a: usize, n: usize) -> (r: bool)
    requires
        a <= n,
        n == s@.len(),
    ensures
        r == is_inf_nan_at(s@, a as int),
{
    if n - a == 3 {
        let c0 = s.get_char(a);
        let c1 = s.get_char(a + 1);
        let c2 = s.get_char(a + 2);
        (char_eq_ci(c0, 'i') && char_eq_ci(c1, 'n') && char_eq_ci(c2, 'f')) || (char_eq_ci(
            c0,
            'n',
        ) && char_eq_ci(c1, 'a') && char_eq_ci(c2, 'n'))
    } else if n - a == 8 {
        char_eq_ci(s.get_char(a), 'i') && char_eq_ci(s.get_char(a + 1), 'n') && char_eq_ci(
            s.get_char(a + 2),
            'f',
        ) && char_eq_ci(s.get_char(a + 3), 'i') && char_eq_ci(s.get_char(a + 4), 'n')
            && char_eq_ci(s.get_char(a + 5), 'i') && char_eq_ci(s.get_char(a + 6), 't')
            && char_eq_ci(s.get_char(a + 7), 'y')
    } else {
        false
    }
}

/// Does the text from `a` carry a well-formed exponent part to the end?
fn check_exp(s: &str, a: usize, n: usize) -> (r: bool)
    requires
        a <= n,
        n == s@.len(),
    ensures
        r == is_exp_part_at(s@, a as int),
{
    if a >= n {
        return false;
    }
    let c = s.get_char(a);
    if !(c == 'e' || c == 'E') {
        return false;
    }
    let mut b = a + 1;
    if b < n {
        let cs = s.get_char(b);
        if cs == '+' || cs == '-' {
            b = b + 1;
        }
    }
    if b >= n {
        return false;
    }
    let j = digit_run(s, b, n);
    j == n
}

/// Decide whether `s` is a text `f64::from_str` accepts.
pub fn check_float_literal(s: &str) -> (ok: bool)
    ensures
        ok == is_float_literal(s@),
{
    let n = s.unicode_len();
    let mut a: usize = 0;
    if n > 0 {
        let c0 = s.get_char(0);
        if c0 == '+' || c0 == '-' {
            a = 1;
        }
    }
    if check_inf_nan(s, a, n) {
        return true;
    }
    let i = digit_run(s, a, n);
    if i < n && s.get_char(i) == '.' {
        let j = digit_run(s, i + 1, n);
        if !(i > a || j > i + 1) {
            return false;
        }
        if j == n {
            return true;
        }
        check_exp(s, j, n)
    } else {
        if i == a {
            return false;
        }
        if i == n {
            return true;
        }
        check_exp(s, i, n)
    }
}

} // verus!
