use vstd::prelude::*;
use vstd::arithmetic::power2::{pow2, lemma2_to64, lemma_pow2_strictly_increases};
use vstd::bits::lemma_u64_shl_is_mul;

use crate::quantity::Quantity;

verus! {

/// Intel: units register (time, power and energy unit exponents).
pub const INTEL_MSR_RAPL_POWER_UNIT: u32 = 0x606;
/// Intel: package energy status.
pub const INTEL_MSR_RAPL_PKG: u32 = 0x611;
/// Intel: core domain (PP0) energy status.
pub const INTEL_MSR_RAPL_PP0: u32 = 0x639;
/// Intel: uncore / graphics domain (PP1) energy status.
pub const INTEL_MSR_RAPL_PP1: u32 = 0x641;
/// Intel: DRAM energy status.
pub const INTEL_MSR_RAPL_DRAM: u32 = 0x619;

/// AMD: units register.
pub const AMD_MSR_PWR_UNIT: u32 = 0xC0010299;
/// AMD: per-core energy status.
pub const AMD_MSR_CORE_ENERGY: u32 = 0xC001029A;
/// AMD: package energy status.
pub const AMD_MSR_PACKAGE_ENERGY: u32 = 0xC001029B;
/// AMD: frequency / voltage identifiers of the current P-state.
pub const AMD_MSR_FID: u32 = 0xC0010293;
/// AMD: current P-state.
pub const AMD_MSR_PSTATE_STATUS: u32 = 0xC0010063;

/// Why a register could not be read.
#[derive(Clone, Copy, Debug, PartialEq, Eq, Structural)]
pub enum RegisterError {
    /// The per-core register file or device does not exist.
    NotFound,
    /// The process may not read registers.
    PermissionDenied,
    /// Fewer than eight bytes came back.
    ShortRead,
}

/// The scale factors of the energy, power and time counters, as exponents:
/// one count is `0.5^exp` of the unit.
#[derive(Clone, Copy, Debug, PartialEq, Eq, Structural)]
pub struct UnitScale {
    pub time_unit_exp: u8,
    pub energy_unit_exp: u8,
    pub power_unit_exp: u8,
}

impl UnitScale {
    pub open spec fn wf(self) -> bool {
        self.time_unit_exp < 16 && self.energy_unit_exp < 32 && self.power_unit_exp < 16
    }
}

/// The units register's fields: power unit in bits 3:0, energy unit in
/// bits 12:8, time unit in bits 19:16.
pub open spec fn unit_scale_of(raw: u64) -> UnitScale {
    UnitScale {
        time_unit_exp: ((raw >> 16) & 0x0F) as u8,
        energy_unit_exp: ((raw >> 8) & 0x1F) as u8,
        power_unit_exp: (raw & 0x0F) as u8,
    }
}

/// Decodes the units register.
pub fn decode_unit_scale(raw: u64) -> (r: UnitScale)
    ensures
        r.wf(),
        r == unit_scale_of(raw),
        r.power_unit_exp as u64 == raw & 0x0F,
        r.energy_unit_exp as u64 == (raw >> 8) & 0x1F,
        r.time_unit_exp as u64 == (raw >> 16) & 0x0F,
{
    let p: u64 = raw & 0x0F;
    let e: u64 = (raw >> 8) & 0x1F;
    let t: u64 = (raw >> 16) & 0x0F;
    assert(raw & 0x0F <= 0x0F) by (bit_vector);
    assert((raw >> 8) & 0x1F <= 0x1F) by (bit_vector);
    assert((raw >> 16) & 0x0F <= 0x0F) by (bit_vector);
    UnitScale { time_unit_exp: t as u8, energy_unit_exp: e as u8, power_unit_exp: p as u8 }
}

/// The three identifier fields of the AMD frequency / voltage register.
#[derive(Clone, Copy, Debug, PartialEq, Eq, Structural)]
pub struct FidFields {
    /// Divisor id, bits 13:8.
    pub did: u8,
    /// Frequency id, bits 7:0.
    pub fid: u8,
    /// Voltage id, bits 21:14.
    pub vid: u8,
}

/// The fields of the AMD frequency / voltage register.
pub open spec fn fid_fields_of(raw: u64) -> FidFields {
    FidFields {
        did: ((raw >> 8) & 0x3F) as u8,
        fid: (raw & 0xFF) as u8,
        vid: ((raw >> 14) & 0xFF) as u8,
    }
}

/// Splits the AMD frequency / voltage register into its fields.
pub fn decode_fid(raw: u64) -> (r: FidFields)
    ensures
        r == fid_fields_of(raw),
        r.did as u64 == (raw >> 8) & 0x3F,
        r.fid as u64 == raw & 0xFF,
        r.vid as u64 == (raw >> 14) & 0xFF,
{
    let d: u64 = (raw >> 8) & 0x3F;
    let f: u64 = raw & 0xFF;
    let v: u64 = (raw >> 14) & 0xFF;
    assert((raw >> 8) & 0x3F <= 0x3F) by (bit_vector);
    assert(raw & 0xFF <= 0xFF) by (bit_vector);
    assert((raw >> 14) & 0xFF <= 0xFF) by (bit_vector);
    FidFields { did: d as u8, fid: f as u8, vid: v as u8 }
}

/// The current P-state index: the low three bits of the P-state register.
pub fn pstate_index(raw: u64) -> (r: u8)
    ensures
        r as u64 == raw & 0x07,
{
    assert(raw & 0x07 <= 0x07) by (bit_vector);
    (raw & 0x07) as u8
}

/// The unsigned integer that bytes `b` stand for, least significant first.
pub open spec fn le_value(b: Seq<u8>) -> nat
    decreases b.len(),
{
    if b.len() == 0 {
        0
    } else {
        b[0] as nat + 256 * le_value(b.drop_first())
    }
}

proof fn lemma_le_value_bound(b: Seq<u8>)
    ensures
        le_value(b) < pow2(8 * b.len()),
    decreases b.len(),
{
    if b.len() > 0 {
        lemma_le_value_bound(b.drop_first());
        let k = b.drop_first().len();
        vstd::arithmetic::power2::lemma_pow2_adds(8, 8 * k);
        lemma2_to64();
        assert(le_value(b) <= 255 + 256 * (pow2(8 * k) - 1)) by (nonlinear_arith)
            requires
                le_value(b) == b[0] as nat + 256 * le_value(b.drop_first()),
                b[0] <= 255,
                le_value(b.drop_first()) < pow2(8 * k),
        ;
        assert(8 * b.len() == 8 + 8 * k);
        assert(pow2(8 * b.len()) == 256 * pow2(8 * k));
    } else {
        lemma2_to64();
    }
}

/// The value of a register from the bytes read at its offset: the first
/// eight bytes, little-endian. Fewer than eight bytes is a short read.
pub fn register_value(bytes: &[u8]) -> (r: Result<u64, RegisterError>)
    ensures
        bytes@.len() < 8 <==> r == Err::<u64, RegisterError>(RegisterError::ShortRead),
        bytes@.len() >= 8 ==> (r matches Ok(v) && v as nat == le_value(bytes@.subrange(0, 8))),
{
    if bytes.len() < 8 {
        return Err(RegisterError::ShortRead);
    }
    let ghost s = bytes@.subrange(0, 8);
    let mut v: u64 = 0;
    let mut i: usize = 8;
    while i > 0
        invariant
            0 <= i <= 8,
            bytes@.len() >= 8,
            s == bytes@.subrange(0, 8),
            v as nat == le_value(s.subrange(i as int, 8)),
        decreases i,
    {
        let ghost tail = s.subrange(i - 1, 8);
        assert(tail.drop_first() =~= s.subrange(i as int, 8));
        proof {
            lemma_le_value_bound(tail);
            lemma2_to64();
            assert(pow2(8 * tail.len()) <= pow2(64)) by {
                if tail.len() < 8 {
                    lemma_pow2_strictly_increases(8 * tail.len(), 64);
                }
            }
        }
        v = (bytes[i - 1] as u64) + 256 * v;
        i = i - 1;
    }
    assert(s.subrange(0, 8) =~= s);
    Ok(v)
}

/// A raw energy count in joules: `raw * 0.5^exp`, that is `raw / 2^exp`.
pub open spec fn joules(raw: u64, scale: UnitScale) -> Quantity {
    Quantity { numerator: raw as i128, denominator: pow2(scale.energy_unit_exp as nat) as u128 }
}

/// Counts per joule at a given scale: `2^exp`.
pub fn counts_per_joule(scale: UnitScale) -> (r: u64)
    requires
        scale.wf(),
    ensures
        r as nat == pow2(scale.energy_unit_exp as nat),
        r > 0,
{
    let e: u64 = scale.energy_unit_exp as u64;
    proof {
        lemma2_to64();
        if e < 31 {
            lemma_pow2_strictly_increases(e as nat, 31);
        }
        lemma_u64_shl_is_mul(1, e);
        vstd::arithmetic::power2::lemma_pow2_pos(e as nat);
    }
    1u64 << e
}

/// Converts a raw energy count to joules.
pub fn energy_from_raw(raw: u64, scale: UnitScale) -> (r: Quantity)
    requires
        scale.wf(),
    ensures
        r.wf(),
        r == joules(raw, scale),
{
    let d: u64 = counts_per_joule(scale);
    Quantity { numerator: raw as i128, denominator: d as u128 }
}

} // verus!
