//! Fixed-point codecs between physical quantities (Hz) and register fields.
use vstd::prelude::*;
use vstd::arithmetic::power2::*;
use vstd::bits::*;
use vstd::arithmetic::div_mod::*;
use crate::FXOSC;

verus! {

/// The reference oscillator frequency, as a mathematical integer.
pub open spec fn fxosc() -> int {
    FXOSC as int
}

/// Number of significant bits of `x` (zero for zero).
pub open spec fn bit_len(x: nat) -> nat
    decreases x,
{
    if x == 0 {
        0
    } else {
        1 + bit_len(x / 2)
    }
}

/// `bit_len(x)` brackets `x` between two consecutive powers of two.
pub proof fn lemma_bit_len_bounds(x: nat)
    ensures
        x < pow2(bit_len(x)),
        x > 0 ==> pow2((bit_len(x) - 1) as nat) <= x,
    decreases x,
{
    lemma2_to64();
    if x > 0 {
        let y = x / 2;
        lemma_bit_len_bounds(y);
        lemma_pow2_unfold(bit_len(x));
        if y > 0 {
            lemma_pow2_unfold(bit_len(y));
        }
    }
}

/// The bit length is the only exponent that brackets `x` that way.
pub proof fn lemma_bit_len_unique(x: nat, e: nat)
    requires
        pow2(e) <= x < pow2(e + 1),
    ensures
        bit_len(x) == e + 1,
{
    lemma_pow2_pos(e);
    lemma_bit_len_bounds(x);
    if bit_len(x) > e + 2 {
        lemma_pow2_strictly_increases(e + 1, (bit_len(x) - 1) as nat);
    } else if bit_len(x) < e + 1 {
        if bit_len(x) < e {
            lemma_pow2_strictly_increases(bit_len(x), e);
        }
    }
}

/// Number of significant bits of `x`.
pub fn bit_length(x: u64) -> (r: u32)
    ensures
        r as nat == bit_len(x as nat),
        r <= 64,
        x > 0 ==> r >= 1,
{
    proof {
        lemma_bit_len_bounds(x as nat);
        lemma2_to64();
        if bit_len(x as nat) > 65 {
            lemma_pow2_strictly_increases(64, (bit_len(x as nat) - 1) as nat);
        }
    }
    let mut n: u64 = x;
    let mut r: u32 = 0;
    while n > 0
        invariant
            r + bit_len(n as nat) == bit_len(x as nat),
            bit_len(x as nat) <= 64,
        decreases n,
    {
        n = n / 2;
        r = r + 1;
    }
    r
}

/// The 24-bit frequency control word of a carrier frequency, before truncation to 24 bits.
pub open spec fn freq_word(hz: int) -> int {
    hz * 65536 / fxosc()
}

/// Splits a word into its low, middle and high byte.
pub open spec fn word_bytes(w: int) -> (u8, u8, u8) {
    ((w % 256) as u8, (w / 256 % 256) as u8, (w / 65536 % 256) as u8)
}

/// The (low, middle, high) register bytes for a carrier frequency.
pub open spec fn frequency_fields(hz: int) -> (u8, u8, u8) {
    word_bytes(freq_word(hz))
}

/// The 24-bit word that three register bytes hold.
pub open spec fn fields_word(t: (u8, u8, u8)) -> int {
    t.2 as int * 65536 + t.1 as int * 256 + t.0 as int
}

/// The frequency that three register bytes are read back as: the low byte is
/// incremented by one before the word is scaled, so that encoding the result
/// again gives the same bytes. With a low byte below 0xFF that is the word plus one.
pub open spec fn fields_frequency(t: (u8, u8, u8)) -> int {
    (fields_word(t) + 1) * fxosc() / 65536
}

/// Converts a carrier frequency in Hz into the (FREQ0, FREQ1, FREQ2) register bytes:
/// the bytes of `hz * 2^16 / f_osc`, rounded down. The word above 24 bits is dropped.
pub fn from_frequency(hz: u64) -> (r: (u8, u8, u8))
    requires
        hz * 65536 <= u64::MAX,
    ensures
        r == frequency_fields(hz as int),
{
    let freq: u64 = hz * 65536 / FXOSC;
    let freq0 = (freq & 0xff) as u8;
    let freq1 = ((freq >> 8) & 0xff) as u8;
    let freq2 = ((freq >> 16) & 0xff) as u8;
    assert(freq & 0xff == freq % 256) by (bit_vector);
    assert((freq >> 8) & 0xff == freq / 256 % 256) by (bit_vector);
    assert((freq >> 16) & 0xff == freq / 65536 % 256) by (bit_vector);
    (freq0, freq1, freq2)
}

/// Converts (FREQ0, FREQ1, FREQ2) register bytes back into a frequency in Hz.
/// The low byte is incremented in place, so it must be below 0xFF.
pub fn to_frequency(fields: (u8, u8, u8)) -> (r: u64)
    requires
        fields.0 < 0xFF,
    ensures
        r as int == fields_frequency(fields),
{
    let (freq0, freq1, freq2) = fields;
    let freq0 = freq0 + 1;
    let word: u64 = ((freq2 as u64) << 16) | ((freq1 as u64) << 8) | (freq0 as u64);
    assert(word == freq2 as u64 * 65536 + freq1 as u64 * 256 + freq0 as u64) by (bit_vector)
        requires
            word == ((freq2 as u64) << 16) | ((freq1 as u64) << 8) | (freq0 as u64),
            freq0 < 256,
            freq1 < 256,
            freq2 < 256,
    ;
    word * FXOSC / 65536
}

/// Decoding the register bytes of a frequency and encoding the result again
/// gives the same bytes, wherever the bytes can be decoded (low byte below 0xFF).
pub proof fn lemma_frequency_round_trip(hz: int)
    requires
        0 <= hz,
        frequency_fields(hz).0 < 255,
    ensures
        frequency_fields(fields_frequency(frequency_fields(hz))) == frequency_fields(hz),
{
    let t = frequency_fields(hz);
    let w = freq_word(hz);
    assert(w >= 0) by (nonlinear_arith)
        requires
            w == hz * 65536 / fxosc(),
            hz >= 0,
            fxosc() > 0,
    ;
    let a = t.2 as int;
    let b = t.1 as int;
    let c = t.0 as int;
    let n = fields_word(t);
    assert(n == a * 65536 + b * 256 + c);
    assert(n % 256 == c && n / 256 % 256 == b && n / 65536 % 256 == a && n % 512 == (b % 2) * 256
        + c);
    assert(word_bytes(n) == t);
    let m = n + 1;
    assert(m % 512 != 0);
    let f = fxosc();
    let h2 = fields_frequency(t);
    assert(h2 == m * f / 65536);
    lemma_fundamental_div_mod(m * f, 65536);
    let r = (m * f) % 65536;
    assert(m * f == 65536 * h2 + r);
    assert(0 <= r < 65536);
    if r == 0 {
        assert(m * 203125 == 512 * h2) by (nonlinear_arith)
            requires
                m * f == 65536 * h2,
                f == 26000000,
        ;
        assert((m * 203125) % 512 == 0) by (nonlinear_arith)
            requires
                m * 203125 == 512 * h2,
        ;
        lemma_mul_mod_noop(m, 203125, 512);
        let x = (m % 512) as u32;
        assert(((m % 512) * 373) % 512 == 0);
        assert((x * 373) % 512 == 0);
        assert(x < 512 && (x * 373) % 512 == 0 ==> x == 0) by (bit_vector);
        assert(false);
    }
    assert(n * f < 65536 * h2 < (n + 1) * f) by (nonlinear_arith)
        requires
            m == n + 1,
            m * f == 65536 * h2 + r,
            0 < r < 65536,
            f == 26000000,
    ;
    assert((h2 * 65536) / f == n) by (nonlinear_arith)
        requires
            n * f < 65536 * h2 < (n + 1) * f,
            f > 0,
    ;
}

/// Exponent of the deviation field: position of the highest set bit of `hz * 2^14 / f_osc`.
pub open spec fn deviation_exponent(hz: int) -> nat {
    (bit_len((hz * 16384 / fxosc()) as nat) - 1) as nat
}

/// Mantissa of the deviation field, before masking.
pub open spec fn deviation_mantissa(hz: int) -> int {
    hz * 131072 / (fxosc() * pow2(deviation_exponent(hz))) - 7
}

/// The (DEVIATION_M, DEVIATION_E) fields of a frequency deviation, each three bits wide.
pub open spec fn deviation_fields(hz: int) -> (u8, u8) {
    ((deviation_mantissa(hz) % 8) as u8, (deviation_exponent(hz) % 8) as u8)
}

/// Converts a frequency deviation in Hz into (mantissa, exponent) fields.
/// A deviation below `f_osc / 2^14` has no highest set bit, hence no exponent.
pub fn from_deviation(v: u64) -> (r: (u8, u8))
    requires
        fxosc() <= v * 16384,
        v * 131072 <= u64::MAX,
    ensures
        r == deviation_fields(v as int),
{
    let q: u64 = v * 16384 / FXOSC;
    assert(q >= 1) by (nonlinear_arith)
        requires
            q == v * 16384 / fxosc(),
            fxosc() <= v * 16384,
            fxosc() > 0,
    ;
    let e: u32 = bit_length(q) - 1;
    proof {
        lemma_bit_len_bounds(q as nat);
        lemma_pow2_pos(e as nat);
        assert(fxosc() * pow2(e as nat) <= fxosc() * q) by (nonlinear_arith)
            requires
                pow2(e as nat) <= q,
        ;
        assert(fxosc() * q <= v * 16384) by (nonlinear_arith)
            requires
                q == v * 16384 / fxosc(),
                fxosc() > 0,
        ;
        lemma_u64_shl_is_mul(FXOSC, e as u64);
    }
    let d: u64 = FXOSC << (e as u64);
    assert(v as int * 131072 / d as int >= 8) by (nonlinear_arith)
        requires
            d <= v as int * 16384,
            d > 0,
    ;
    let m: u64 = v * 131072 / d - 7;
    assert(m & 7 == m % 8) by (bit_vector);
    assert((e as u64) & 7 == (e as u64) % 8) by (bit_vector);
    ((m & 7) as u8, ((e as u64) & 7) as u8)
}

/// The deviation that a (mantissa, exponent) pair stands for:
/// `f_osc * (8 + mantissa) * 2^exponent / 2^17`, rounded down.
pub open spec fn deviation_of(mantissa: int, exponent: nat) -> int {
    fxosc() * (8 + mantissa) * pow2(exponent) / 131072
}

/// Encoding the deviation of a pair with exponent 0 to 6 and mantissa 1 to 6
/// gives that pair back.
pub proof fn lemma_deviation_round_trip(mantissa: u8, exponent: u8)
    requires
        1 <= mantissa <= 6,
        exponent <= 6,
    ensures
        deviation_fields(deviation_of(mantissa as int, exponent as nat)) == (mantissa, exponent),
{
    let e = exponent as nat;
    let m = mantissa as int;
    lemma2_to64();
    let p = pow2(e) as int;
    lemma_pow2_pos(e);
    lemma_pow2_strictly_increases(e, 7);
    assert(1 <= p <= 64);
    let k = (8 + m) * p;
    assert(9 <= k <= 896) by (nonlinear_arith)
        requires
            k == (8 + m) * p,
            1 <= m <= 6,
            1 <= p <= 64,
    ;
    let x = 203125 * k;
    // `x` is no multiple of 1024: 203125 is odd and `k` is below 1024.
    lemma_fundamental_div_mod(x, 1024);
    let v = x / 1024;
    let rem = x % 1024;
    if rem == 0 {
        lemma_mul_mod_noop(k, 203125, 1024);
        let kk = (k % 1024) as u32;
        assert((kk * 373) % 1024 == 0);
        assert(kk < 1024 && (kk * 373) % 1024 == 0 ==> kk == 0) by (bit_vector);
        assert(false);
    }
    assert(fxosc() * (8 + m) * p == 128 * x) by (nonlinear_arith)
        requires
            x == 203125 * k,
            k == (8 + m) * p,
            fxosc() == 26000000,
    ;
    lemma_fundamental_div_mod_converse(128 * x, 131072, v, 128 * rem);
    assert(deviation_of(m, e) == v);
    // The exponent: 2^e <= v * 2^14 / f_osc < 2^(e+1).
    let q = v * 16384 / fxosc();
    assert(p <= q < 2 * p) by (nonlinear_arith)
        requires
            x == 1024 * v + rem,
            0 < rem < 1024,
            x == 203125 * k,
            k == (8 + m) * p,
            1 <= m <= 6,
            1 <= p,
            q == v * 16384 / fxosc(),
            fxosc() == 26000000,
    ;
    lemma_pow2_unfold(e + 1);
    lemma_bit_len_unique(q as nat, e);
    assert(deviation_exponent(v) == e);
    // The mantissa: v * 2^17 / (f_osc * 2^e) == 7 + m.
    assert(v * 131072 / (fxosc() * p) == 7 + m) by (nonlinear_arith)
        requires
            x == 1024 * v + rem,
            0 < rem < 1024,
            x == 203125 * k,
            k == (8 + m) * p,
            1 <= m <= 6,
            1 <= p,
            fxosc() == 26000000,
    ;
    assert(deviation_mantissa(v) == m);
}

/// Exponent of the data-rate field: bit length of `hz * 2^19 / f_osc`.
pub open spec fn rate_exponent(hz: int) -> nat {
    bit_len((hz * 524288 / fxosc()) as nat)
}

/// Mantissa of the data-rate field, before the carry into the exponent.
pub open spec fn rate_mantissa(hz: int) -> int {
    hz * 134217728 / (fxosc() * pow2((rate_exponent(hz) - 1) as nat)) - 255
}

/// The (DRATE_M, DRATE_E) fields of a symbol rate; a mantissa of 256 carries into the exponent.
pub open spec fn rate_fields(hz: int) -> (u8, u8) {
    if rate_mantissa(hz) == 256 {
        (0u8, (rate_exponent(hz) + 1) as u8)
    } else {
        (rate_mantissa(hz) as u8, rate_exponent(hz) as u8)
    }
}

/// Converts a symbol rate in baud into (mantissa, exponent) fields.
/// A rate below `f_osc / 2^19` has no exponent.
pub fn from_drate(v: u64) -> (r: (u8, u8))
    requires
        fxosc() <= v * 524288,
        v * 134217728 <= u64::MAX,
    ensures
        r == rate_fields(v as int),
        1 <= rate_mantissa(v as int) <= 256,
{
    let q: u64 = v * 524288 / FXOSC;
    assert(q >= 1) by (nonlinear_arith)
        requires
            q == v * 524288 / fxosc(),
            fxosc() <= v * 524288,
            fxosc() > 0,
    ;
    let e: u32 = bit_length(q);
    proof {
        lemma_bit_len_bounds(q as nat);
        lemma_pow2_pos((e - 1) as nat);
        lemma_pow2_unfold(e as nat);
        assert(fxosc() * pow2((e - 1) as nat) <= fxosc() * q) by (nonlinear_arith)
            requires
                pow2((e - 1) as nat) <= q,
        ;
        assert(fxosc() * q <= v * 524288) by (nonlinear_arith)
            requires
                q == v * 524288 / fxosc(),
                fxosc() > 0,
        ;
        assert(v * 524288 < fxosc() * (q + 1)) by (nonlinear_arith)
            requires
                q == v * 524288 / fxosc(),
                fxosc() > 0,
        ;
        assert(fxosc() * (q + 1) <= fxosc() * pow2(e as nat)) by (nonlinear_arith)
            requires
                q + 1 <= pow2(e as nat),
        ;
        lemma_u64_shl_is_mul(FXOSC, (e - 1) as u64);
    }
    let d: u64 = FXOSC << ((e - 1) as u64);
    assert(256 <= v as int * 134217728 / d as int <= 511) by (nonlinear_arith)
        requires
            d <= v as int * 524288,
            v as int * 524288 < 2 * d,
            d > 0,
    ;
    let m: u64 = v * 134217728 / d - 255;
    if m == 256 {
        (0u8, (e + 1) as u8)
    } else {
        (m as u8, e as u8)
    }
}

/// Exponent of the channel-bandwidth field: position of the highest set bit of `f_osc / (32 * hz)`.
pub open spec fn bandwidth_exponent(hz: int) -> nat {
    (bit_len((fxosc() / (32 * hz)) as nat) - 1) as nat
}

/// Mantissa of the channel-bandwidth field, before masking.
pub open spec fn bandwidth_mantissa(hz: int) -> int {
    fxosc() / (hz * 8 * pow2(bandwidth_exponent(hz))) - 4
}

/// The (CHANBW_M, CHANBW_E) fields of a channel bandwidth, each two bits wide.
pub open spec fn bandwidth_fields(hz: int) -> (u8, u8) {
    ((bandwidth_mantissa(hz) % 4) as u8, (bandwidth_exponent(hz) % 4) as u8)
}

/// Converts a channel bandwidth in Hz into (mantissa, exponent) fields.
/// A bandwidth above `f_osc / 32` has no exponent.
pub fn from_chanbw(v: u64) -> (r: (u8, u8))
    requires
        1 <= v,
        32 * v <= fxosc(),
    ensures
        r == bandwidth_fields(v as int),
        0 <= bandwidth_mantissa(v as int) < 4,
{
    let q: u64 = FXOSC / (8 * 4 * v);
    assert(q >= 1) by (nonlinear_arith)
        requires
            q == fxosc() / (32 * v),
            32 * v <= fxosc(),
            v >= 1,
    ;
    let e: u32 = bit_length(q) - 1;
    proof {
        lemma_bit_len_bounds(q as nat);
        lemma_pow2_pos(e as nat);
        lemma_pow2_unfold((e + 1) as nat);
        assert(32 * v * pow2(e as nat) <= fxosc()) by (nonlinear_arith)
            requires
                pow2(e as nat) <= q,
                q == fxosc() / (32 * v),
                v >= 1,
        ;
        assert(fxosc() < 64 * v * pow2(e as nat)) by (nonlinear_arith)
            requires
                q + 1 <= 2 * pow2(e as nat),
                q == fxosc() / (32 * v),
                v >= 1,
        ;
        lemma_u64_shl_is_mul(1, e as u64);
    }
    let p: u64 = 1u64 << (e as u64);
    assert(4 * (v * 8 * p) == 32 * v * p && v * 8 * p <= 32 * v * p && 8 * (v * 8 * p) == 64 * v
        * p && v * 8 * p > 0) by (nonlinear_arith)
        requires
            v >= 1,
            p >= 1,
    ;
    let d: u64 = v * 8 * p;
    assert(4 <= fxosc() / d as int <= 7) by (nonlinear_arith)
        requires
            4 * d <= fxosc(),
            fxosc() < 8 * d,
            d > 0,
    ;
    let m: u64 = FXOSC / d - 4;
    assert(m & 3 == m % 4) by (bit_vector);
    assert((e as u64) & 3 == (e as u64) % 4) by (bit_vector);
    ((m & 3) as u8, ((e as u64) & 3) as u8)
}

} // verus!
