use vstd::prelude::*;

use vstd::arithmetic::div_mod::{
    lemma_fundamental_div_mod, lemma_fundamental_div_mod_converse, lemma_mod_bound,
};

verus! {

/// The duty-cycle ceiling the controller enforces, in thousandths of a
/// percent: the converter never runs above 75%.
pub const DUTY_MAX_MILLI: u32 = 75_000;

/// The wire encoding of a duty cycle given in thousandths of a percent: the
/// nearest count of 2^-9 percent steps, `round(milli * 512 / 1000)`.
pub open spec fn encode_duty_spec(milli: int) -> int {
    (milli * 512 + 500) / 1000
}

/// The duty cycle a wire value stands for, in thousandths of a percent: the
/// nearest count of milli-percent in `raw * 2^-9` percent,
/// `round(raw * 1000 / 512)`.
pub open spec fn decode_duty_spec(raw: int) -> int {
    (raw * 1000 + 256) / 512
}

/// Encode a duty cycle, given in thousandths of a percent, as the unsigned
/// fixed-point wire value counted in 2^-9 percent steps.
pub fn encode_duty(duty_milli: u32) -> (raw: u32)
    requires
        duty_milli <= DUTY_MAX_MILLI,
    ensures
        raw == encode_duty_spec(duty_milli as int),
        raw <= 38_400,
{
    (duty_milli * 512 + 500) / 1000
}

/// Decode a wire duty value back to thousandths of a percent.
///
/// The result is wide enough for any 32-bit wire value the device might
/// report during the handshake.
pub fn decode_duty(raw: u32) -> (milli: u64)
    ensures
        milli == decode_duty_spec(raw as int),
{
    ((raw as u64) * 1000 + 256) / 512
}

/// Decoding inverts encoding to within one thousandth of a percent, which
/// is finer than the 2^-9 percent quantum the wire format can carry: the
/// duty cycle survives a round trip over the wire.
pub proof fn lemma_duty_round_trip(milli: int)
    requires
        0 <= milli <= DUTY_MAX_MILLI,
    ensures
        0 <= encode_duty_spec(milli) <= 38_400,
        decode_duty_spec(encode_duty_spec(milli)) - milli <= 1,
        milli - decode_duty_spec(encode_duty_spec(milli)) <= 1,
{
    let x = milli * 512 + 500;
    let q = x / 1000;
    let r = x % 1000;
    lemma_fundamental_div_mod(x, 1000);
    lemma_mod_bound(x, 1000);
    assert(x == 1000 * q + r);
    assert(0 <= r < 1000);

    // Bound the encoded value itself.
    assert(q <= 38_400 && q >= 0) by {
        lemma_fundamental_div_mod_converse((milli * 512 + 500), 1000, q, r);
    };

    let d = q * 1000 + 256;
    assert(d == milli * 512 + 756 - r);
    let c = 756 - r;
    if c >= 512 {
        assert(d == (milli + 1) * 512 + (c - 512)) by (nonlinear_arith)
            requires
                d == milli * 512 + c,
        ;
        lemma_fundamental_div_mod_converse(d, 512, milli + 1, c - 512);
        assert(d / 512 == milli + 1);
    } else if c >= 0 {
        lemma_fundamental_div_mod_converse(d, 512, milli, c);
        assert(d / 512 == milli);
    } else {
        // c < 0 forces r > 756, which cannot happen for milli == 0, where
        // x == 500; so milli >= 1 and the quotient steps down by one.
        if milli == 0 {
            lemma_fundamental_div_mod_converse(x, 1000, 0, 500);
            assert(r == 500);
            assert(false);
        }
        assert(d == (milli - 1) * 512 + (c + 512)) by (nonlinear_arith)
            requires
                d == milli * 512 + c,
        ;
        lemma_fundamental_div_mod_converse(d, 512, milli - 1, c + 512);
        assert(d / 512 == milli - 1);
    }
}

} // verus!
