use vstd::arithmetic::power2::*;
use vstd::bits::*;
use vstd::prelude::*;

verus! {

// Levels are fixed-point linear amplitudes: `FULL_SCALE` stands for 1.0.
/// The level of a full-scale sample (linear 1.0).
pub const FULL_SCALE: u64 = 0x8000_0000;

/// Largest level a decoded sample reports (linear 2^31); larger floats saturate here.
pub const LEVEL_CAP: u64 = 0x4000_0000_0000_0000;

/// Bytes in one 16-bit PCM sample.
pub const BYTES_PER_SAMPLE_16BIT: u16 = 2;

/// Bytes in one packed 24-bit PCM sample.
pub const BYTES_PER_SAMPLE_24BIT: u16 = 3;

/// Bytes in one 32-bit sample, PCM or IEEE float.
pub const BYTES_PER_SAMPLE_32BIT: u16 = 4;

pub open spec fn abs_int(x: int) -> nat {
    if x < 0 {
        (-x) as nat
    } else {
        x as nat
    }
}

pub open spec fn max_nat(a: nat, b: nat) -> nat {
    if a >= b {
        a
    } else {
        b
    }
}

/// Unsigned little-endian value of `n` bytes starting at `off`.
pub open spec fn le_unsigned(b: Seq<u8>, off: int, n: nat) -> nat
    decreases n,
{
    if n == 0 {
        0
    } else {
        b[off] as nat + 256 * le_unsigned(b, off + 1, (n - 1) as nat)
    }
}

/// Two's-complement reading of an unsigned value of `bits` bits.
pub open spec fn signed_of(u: nat, bits: nat) -> int {
    if u >= pow2((bits - 1) as nat) {
        u - pow2(bits)
    } else {
        u as int
    }
}

/// Level of a finite or infinite IEEE-754 single given by its bits:
/// floor(|x| * 2^31), capped at `LEVEL_CAP`; infinities give the cap and NaN gives 0.
pub open spec fn float_level(bits: u32) -> nat {
    let e = (bits as nat / 0x80_0000) % 256;
    let m = bits as nat % 0x80_0000;
    if e == 255 {
        if m == 0 {
            LEVEL_CAP as nat
        } else {
            0
        }
    } else if e == 0 {
        // subnormal: m * 2^-149 * 2^31 < 1
        0
    } else if e >= 119 {
        let scaled = (0x80_0000 + m) * pow2((e - 119) as nat);
        if scaled >= LEVEL_CAP {
            LEVEL_CAP as nat
        } else {
            scaled
        }
    } else {
        (0x80_0000 + m) / pow2((119 - e) as nat)
    }
}

/// Level of sample `i` of the buffer, for a given sample width and float flag.
/// Unsupported combinations read as silence.
pub open spec fn sample_level(b: Seq<u8>, i: int, bytes_per_sample: u16, is_float: bool) -> nat {
    if is_float {
        if bytes_per_sample == 4 {
            float_level(le_unsigned(b, 4 * i, 4) as u32)
        } else {
            0
        }
    } else if bytes_per_sample == 2 {
        abs_int(signed_of(le_unsigned(b, 2 * i, 2), 16)) * 0x1_0000
    } else if bytes_per_sample == 3 {
        abs_int(signed_of(le_unsigned(b, 3 * i, 3), 24)) * 0x100
    } else if bytes_per_sample == 4 {
        abs_int(signed_of(le_unsigned(b, 4 * i, 4), 32))
    } else {
        0
    }
}

/// Largest sample level among the first `n` samples (0 for none).
pub open spec fn peak_level(b: Seq<u8>, n: nat, bytes_per_sample: u16, is_float: bool) -> nat
    decreases n,
{
    if n == 0 {
        0
    } else {
        max_nat(
            peak_level(b, (n - 1) as nat, bytes_per_sample, is_float),
            sample_level(b, n - 1, bytes_per_sample, is_float),
        )
    }
}

proof fn lemma_zero_bytes_read_zero(b: Seq<u8>, off: int, n: nat)
    requires
        0 <= off,
        off + n <= b.len(),
        forall|j: int| 0 <= j < b.len() ==> b[j] == 0,
    ensures
        le_unsigned(b, off, n) == 0,
    decreases n,
{
    if n > 0 {
        lemma_zero_bytes_read_zero(b, off + 1, (n - 1) as nat);
    }
}

/// A buffer of zero bytes decodes to silence, whatever the sample format.
pub proof fn lemma_zero_buffer_is_silent(b: Seq<u8>, n: nat, bytes_per_sample: u16, is_float: bool)
    requires
        n * bytes_per_sample <= b.len(),
        forall|j: int| 0 <= j < b.len() ==> b[j] == 0,
    ensures
        peak_level(b, n, bytes_per_sample, is_float) == 0,
    decreases n,
{
    if n > 0 {
        assert((n - 1) * bytes_per_sample + bytes_per_sample == n * bytes_per_sample)
            by (nonlinear_arith);
        assert((n - 1) * bytes_per_sample <= n * bytes_per_sample) by (nonlinear_arith);
        lemma_zero_buffer_is_silent(b, (n - 1) as nat, bytes_per_sample, is_float);
        let i = n - 1;
        if bytes_per_sample == 2 || bytes_per_sample == 3 || bytes_per_sample == 4 {
            assert(i * bytes_per_sample == bytes_per_sample * i) by (nonlinear_arith);
            lemma_zero_bytes_read_zero(b, bytes_per_sample * i, bytes_per_sample as nat);
        }
        lemma_pow2_values();
        assert(float_level(0) == 0);
    }
}

proof fn lemma_pow2_values()
    ensures
        pow2(8) == 0x100,
        pow2(15) == 0x8000,
        pow2(16) == 0x1_0000,
        pow2(23) == 0x80_0000,
        pow2(24) == 0x100_0000,
        pow2(31) == 0x8000_0000,
        pow2(32) == 0x1_0000_0000,
{
    lemma2_to64();
}

pub(crate) fn read_le(buffer: &[u8], off: usize, n: usize) -> (r: u64)
    requires
        n <= 4,
        off + n <= buffer@.len(),
    ensures
        r == le_unsigned(buffer@, off as int, n as nat),
        r < pow2(8 * n as nat),
    decreases n,
{
    if n == 0 {
        proof {
            lemma2_to64();
        }
        0
    } else {
        let len = buffer.len();
        assert(off + 1 <= len);
        let rest = read_le(buffer, off + 1, n - 1);
        proof {
            lemma_pow2_adds(8, (8 * (n - 1)) as nat);
            lemma2_to64();
            assert(pow2(8 * (n - 1) as nat) <= pow2(24)) by {
                if n - 1 < 3 {
                    lemma_pow2_strictly_increases((8 * (n - 1)) as nat, 24);
                }
            }
            assert(256 * rest + 256 <= 256 * pow2(8 * (n - 1) as nat)) by (nonlinear_arith)
                requires
                    rest < pow2(8 * (n - 1) as nat),
            ;
        }
        buffer[off] as u64 + 256 * rest
    }
}

/// Level of a single-precision float given by its bits.
pub fn float_bits_level(bits: u32) -> (r: u64)
    ensures
        r == float_level(bits),
        r <= LEVEL_CAP,
{
    let e: u32 = (bits / 0x80_0000) % 256;
    let m: u32 = bits % 0x80_0000;
    if e == 255 {
        if m == 0 {
            LEVEL_CAP
        } else {
            0
        }
    } else if e == 0 {
        0
    } else if e >= 119 {
        let k: u32 = e - 119;
        let base: u64 = 0x80_0000 + m as u64;
        if k >= 39 {
            proof {
                if k > 39 {
                    lemma_pow2_strictly_increases(39, k as nat);
                }
                lemma_pow2_adds(23, 39);
                lemma2_to64();
                lemma2_to64_rest();
                assert(base * pow2(k as nat) >= 0x80_0000 * pow2(39)) by (nonlinear_arith)
                    requires
                        base >= 0x80_0000,
                        pow2(k as nat) >= pow2(39),
                ;
            }
            LEVEL_CAP
        } else {
            proof {
                lemma2_to64();
                lemma_pow2_pos(k as nat);
                if k < 38 {
                    lemma_pow2_strictly_increases(k as nat, 38);
                }
                lemma2_to64_rest();
                assert(base * pow2(k as nat) < 0x100_0000 * pow2(38)) by (nonlinear_arith)
                    requires
                        base < 0x100_0000,
                        pow2(k as nat) <= pow2(38),
                        pow2(k as nat) > 0,
                ;
                assert(0x100_0000 * pow2(38) == pow2(62)) by {
                    lemma_pow2_adds(24, 38);
                }
                lemma_u64_shl_is_mul(base, k as u64);
            }
            base << (k as u64)
        }
    } else {
        let s: u32 = 119 - e;
        let base: u64 = 0x80_0000 + m as u64;
        if s >= 24 {
            proof {
                lemma2_to64();
                if s > 24 {
                    lemma_pow2_strictly_increases(24, s as nat);
                }
                vstd::arithmetic::div_mod::lemma_basic_div(base as int, pow2(s as nat) as int);
            }
            0
        } else {
            proof {
                lemma_u64_shr_is_div(base, s as u64);
                lemma_pow2_pos(s as nat);
                vstd::arithmetic::div_mod::lemma_div_is_ordered_by_denominator(base as int, 1, pow2(s as nat) as int);
                lemma2_to64_rest();
            }
            base >> (s as u64)
        }
    }
}

fn level_of_sample(buffer: &[u8], i: usize, bytes_per_sample: u16, is_float: bool) -> (r: u64)
    requires
        (i + 1) * bytes_per_sample <= buffer@.len(),
    ensures
        r == sample_level(buffer@, i as int, bytes_per_sample, is_float),
        r <= LEVEL_CAP,
{
    proof {
        lemma_pow2_values();
        lemma2_to64();
        lemma2_to64_rest();
    }
    let n = bytes_per_sample as usize;
    let len = buffer.len();
    if bytes_per_sample == BYTES_PER_SAMPLE_32BIT || (!is_float && (bytes_per_sample
        == BYTES_PER_SAMPLE_16BIT || bytes_per_sample == BYTES_PER_SAMPLE_24BIT)) {
        assert(i * n + n == (i + 1) * n) by (nonlinear_arith);
        assert(i * n + n <= len);
        let u = read_le(buffer, i * n, n);
        assert(n == 2 ==> i * n == 2 * i) by (nonlinear_arith);
        assert(n == 3 ==> i * n == 3 * i) by (nonlinear_arith);
        assert(n == 4 ==> i * n == 4 * i) by (nonlinear_arith);
        if is_float && bytes_per_sample == BYTES_PER_SAMPLE_32BIT {
            float_bits_level(u as u32)
        } else if bytes_per_sample == BYTES_PER_SAMPLE_16BIT {
            if u >= 0x8000 {
                (0x1_0000 - u) * 0x1_0000
            } else {
                u * 0x1_0000
            }
        } else if bytes_per_sample == BYTES_PER_SAMPLE_24BIT {
            if u >= 0x80_0000 {
                (0x100_0000 - u) * 0x100
            } else {
                u * 0x100
            }
        } else {
            if u >= 0x8000_0000 {
                0x1_0000_0000 - u
            } else {
                u
            }
        }
    } else {
        0
    }
}

/// Largest absolute sample value of a buffer of interleaved samples, as a level
/// (`FULL_SCALE` is linear 1.0).
///
/// Supported encodings: 32-bit IEEE float (when `is_float`) and, when not
/// `is_float`, 16-bit signed PCM, 24-bit signed PCM packed in three little-endian
/// bytes, and 32-bit signed PCM. Any other combination reads as silence.
pub fn calculate_peak_from_buffer(
    buffer: &[u8],
    sample_count: usize,
    bytes_per_sample: u16,
    is_float: bool,
) -> (r: u64)
    requires
        sample_count * bytes_per_sample <= buffer@.len(),
    ensures
        r == peak_level(buffer@, sample_count as nat, bytes_per_sample, is_float),
        r <= LEVEL_CAP,
{
    let mut max_level: u64 = 0;
    let mut i: usize = 0;
    while i < sample_count
        invariant
            i <= sample_count,
            sample_count * bytes_per_sample <= buffer@.len(),
            max_level == peak_level(buffer@, i as nat, bytes_per_sample, is_float),
            max_level <= LEVEL_CAP,
        decreases sample_count - i,
    {
        assert((i + 1) * bytes_per_sample <= sample_count * bytes_per_sample) by (nonlinear_arith)
            requires
                i < sample_count,
        ;
        let level = level_of_sample(buffer, i, bytes_per_sample, is_float);
        if level > max_level {
            max_level = level;
        }
        i = i + 1;
    }
    max_level
}

} // verus!
