//! The telemetry snapshot and its fixed binary record.

use crate::gpu_info_macos::GpuInfo;
use crate::gpu_probe::{spec_get_gpu_info, GpuStrategy};
use crate::helpers::pop_4u8;
use crate::magnitude::{
    exponent_and_divisor, lemma_powers_of_1024, scale, spec_get_exp, spec_scale, unit_field,
    unit_symbol,
};
use vstd::prelude::*;

verus! {

/// One snapshot of the host: processor load, memory size and pressure, and
/// the same for the graphics processor. Sizes are scaled by 1024 and carry
/// their unit as a field of four bytes.
#[derive(Clone, Copy, Debug, PartialEq, Eq)]
pub struct SystemInfo {
    /// Processor load in percent.
    pub cpu_usage: u8,
    /// Size of the main memory, in `ram_unit`.
    pub ram_max: u16,
    /// Main memory in use, in percent.
    pub ram_usage: u8,
    /// Unit of `ram_max`: ASCII, left-justified, NUL-padded.
    pub ram_unit: [u8; 4],
    /// Graphics processor load in percent.
    pub gpu_usage: u8,
    /// Size of the video memory, in `vram_unit`.
    pub vram_max: u16,
    /// Video memory in use, in percent.
    pub vram_usage: u8,
    /// Unit of `vram_max`: ASCII, left-justified, NUL-padded.
    pub vram_unit: [u8; 4],
}

/// The record of a snapshot as it goes over the link: sixteen bytes.
///
/// | Offset | Field | Width |
/// |---|---|---|
/// | 0 | `cpu_usage` | 1 |
/// | 1 | `ram_max`, low byte first | 2 |
/// | 3 | `ram_usage` | 1 |
/// | 4 | `ram_unit` | 4 |
/// | 8 | `gpu_usage` | 1 |
/// | 9 | `vram_max`, low byte first | 2 |
/// | 11 | `vram_usage` | 1 |
/// | 12 | `vram_unit` | 4 |
pub type WireRecord = [u8; 16];

/// The share of `total` that `used` is, in percent and rounded down: 0
/// where `total` is 0, and 100 where `used` is not below `total`.
pub open spec fn spec_usage_percent(used: u64, total: u64) -> u8 {
    if total == 0 {
        0
    } else if used >= total {
        100
    } else {
        (used * 100 / total as int) as u8
    }
}

/// A percentage held to the range from 0 to 100.
pub open spec fn spec_clamp_percent(value: u64) -> u8 {
    if value >= 100 {
        100
    } else {
        value as u8
    }
}

/// The low sixteen bits of a mantissa.
pub open spec fn spec_low_u16(mantissa: u64) -> u16 {
    (mantissa % 0x1_0000) as u16
}

/// The graphics processor's part of a snapshot: load, scaled memory size,
/// memory pressure and the unit field. Without a reading all are 0 and the
/// unit is GB.
pub open spec fn spec_gpu_stats(gpu: Option<GpuInfo>) -> (u8, u16, u8, Seq<u8>) {
    match gpu {
        Some(info) => {
            let scaled = spec_scale(info.vram_max, 1024);
            (
                spec_clamp_percent(info.gpu_usage),
                spec_low_u16(scaled.mantissa),
                spec_usage_percent(info.vram_used, info.vram_max),
                unit_field(scaled.exponent),
            )
        },
        None => (0, 0, 0, unit_field(3)),
    }
}

/// A sixteen-bit number as two bytes, the low byte first.
pub open spec fn le_bytes(value: u16) -> Seq<u8> {
    seq![(value % 256) as u8, (value / 256) as u8]
}

/// Computes the share of `total` that `used` is, in percent.
pub fn usage_percent(used: u64, total: u64) -> (r: u8)
    ensures
        r == spec_usage_percent(used, total),
        r <= 100,
        total == 0 ==> r == 0,
{
    if total == 0 {
        0
    } else if used >= total {
        100
    } else {
        let share: u128 = (used as u128) * 100 / (total as u128);
        assert(share < 100) by (nonlinear_arith)
            requires
                share == (used as int) * 100 / (total as int),
                0 <= used < total,
        ;
        share as u8
    }
}

/// Holds a percentage to the range from 0 to 100.
pub fn clamp_percent(value: u64) -> (r: u8)
    ensures
        r == spec_clamp_percent(value),
        r <= 100,
{
    if value >= 100 {
        100
    } else {
        value as u8
    }
}

/// The four-byte unit field that goes with a scaled size.
pub fn unit_bytes(exp: u32) -> (r: [u8; 4])
    ensures
        r@ == unit_field(exp),
{
    let unit = SystemInfo::get_unit(exp);
    let name = unit.as_str();
    proof {
        broadcast use vstd::string::is_ascii_spec_bytes;

        assert(vstd::string::is_ascii(name));
    }
    pop_4u8(name.as_bytes())
}

impl SystemInfo {
    /// Every percentage lies between 0 and 100, and each unit field holds
    /// one of the five unit symbols.
    pub open spec fn wf(&self) -> bool {
        &&& self.cpu_usage <= 100
        &&& self.ram_usage <= 100
        &&& self.gpu_usage <= 100
        &&& self.vram_usage <= 100
        &&& exists|e: u32| e <= 4 && self.ram_unit@ == #[trigger] unit_field(e)
        &&& exists|e: u32| e <= 4 && self.vram_unit@ == #[trigger] unit_field(e)
    }

    /// The record of a snapshot: sixteen bytes, the fields in their order,
    /// each sixteen-bit size with its low byte first.
    pub open spec fn spec_encode(&self) -> Seq<u8> {
        seq![self.cpu_usage] + le_bytes(self.ram_max) + seq![self.ram_usage] + self.ram_unit@
            + seq![self.gpu_usage] + le_bytes(self.vram_max) + seq![self.vram_usage]
            + self.vram_unit@
    }

    /// The unit symbol of an exponent.
    pub fn get_unit(exp: u32) -> (r: String)
        ensures
            r@ == unit_symbol(exp),
    {
        let name: &str = if exp == 0 {
            "B"
        } else if exp == 1 {
            "KB"
        } else if exp == 2 {
            "MB"
        } else if exp == 3 {
            "GB"
        } else if exp == 4 {
            "TB"
        } else {
            "UB"
        };
        proof {
            reveal_strlit("B");
            reveal_strlit("KB");
            reveal_strlit("MB");
            reveal_strlit("GB");
            reveal_strlit("TB");
            reveal_strlit("UB");
        }
        name.to_owned()
    }

    /// The exponent chosen for `num`: the largest from 1 to 4 whose power
    /// of `base` lies below `num`, and 0 where none does.
    pub fn get_exp(num: u64, base: u64) -> (r: u32)
        ensures
            r == spec_get_exp(num, base),
            r <= 4,
    {
        exponent_and_divisor(num, base).0
    }

    /// Turns a reading of the graphics processor into its part of a
    /// snapshot. The memory size is scaled by 1024 and cut to its low sixteen
    /// bits, the load is held to 100, and the memory pressure is the share
    /// of the size that is in use.
    pub fn get_gpu_stats(gpu: Option<GpuInfo>) -> (r: (u8, u16, u8, [u8; 4]))
        ensures
            (r.0, r.1, r.2, r.3@) == spec_gpu_stats(gpu),
            r.0 <= 100,
            r.2 <= 100,
            exists|e: u32| e <= 4 && r.3@ == #[trigger] unit_field(e),
    {
        match gpu {
            Some(info) => {
                let scaled = scale(info.vram_max, 1024);
                let vram_max: u16 = (scaled.mantissa % 0x1_0000) as u16;
                let vram_usage = usage_percent(info.vram_used, info.vram_max);
                let vram_unit = unit_bytes(scaled.exponent);
                let gpu_usage = clamp_percent(info.gpu_usage);
                (gpu_usage, vram_max, vram_usage, vram_unit)
            },
            None => (0, 0, 0, unit_bytes(3)),
        }
    }

    /// Builds a snapshot from raw readings: the processor load in percent,
    /// the size of the main memory and the part of it in use, both in
    /// bytes, and the reading of the graphics processor if there is one.
    pub fn get_system_info(
        cpu_usage: u8,
        ram_total: u64,
        ram_used: u64,
        gpu: Option<GpuInfo>,
    ) -> (r: SystemInfo)
        ensures
            r.wf(),
            r.cpu_usage == spec_clamp_percent(cpu_usage as u64),
            r.ram_max == spec_low_u16(spec_scale(ram_total, 1024).mantissa),
            r.ram_usage == spec_usage_percent(ram_used, ram_total),
            r.ram_unit@ == unit_field(spec_scale(ram_total, 1024).exponent),
            (r.gpu_usage, r.vram_max, r.vram_usage, r.vram_unit@) == spec_gpu_stats(gpu),
    {
        let cpu_usage = clamp_percent(cpu_usage as u64);
        let scaled = scale(ram_total, 1024);
        let ram_max: u16 = (scaled.mantissa % 0x1_0000) as u16;
        let ram_usage = usage_percent(ram_used, ram_total);
        let ram_unit = unit_bytes(scaled.exponent);
        let (gpu_usage, vram_max, vram_usage, vram_unit) = Self::get_gpu_stats(gpu);
        SystemInfo {
            cpu_usage,
            ram_max,
            ram_usage,
            ram_unit,
            gpu_usage,
            vram_max,
            vram_usage,
            vram_unit,
        }
    }

    /// Writes the snapshot as its record. Every snapshot has a record, and
    /// the record depends on nothing but the snapshot.
    pub fn encode(&self) -> (r: WireRecord)
        ensures
            r@ == self.spec_encode(),
    {
        [
            self.cpu_usage,
            (self.ram_max % 256) as u8,
            (self.ram_max / 256) as u8,
            self.ram_usage,
            self.ram_unit[0],
            self.ram_unit[1],
            self.ram_unit[2],
            self.ram_unit[3],
            self.gpu_usage,
            (self.vram_max % 256) as u8,
            (self.vram_max / 256) as u8,
            self.vram_usage,
            self.vram_unit[0],
            self.vram_unit[1],
            self.vram_unit[2],
            self.vram_unit[3],
        ]
    }
}

/// A share in percent lies between 0 and 100, and is 0 where the whole is
/// 0.
pub proof fn lemma_usage_percent_in_range(used: u64, total: u64)
    ensures
        0 <= spec_usage_percent(used, total) <= 100,
        total == 0 ==> spec_usage_percent(used, total) == 0,
{
    if total != 0 && used < total {
        assert((used as int) * 100 / (total as int) < 100) by (nonlinear_arith)
            requires
                0 <= used < total,
        ;
    }
}

/// The record is a function of the snapshot: equal snapshots have equal
/// records, byte for byte, and every record has sixteen bytes.
pub proof fn lemma_encode_is_deterministic(a: SystemInfo, b: SystemInfo)
    requires
        a == b,
    ensures
        a.spec_encode() == b.spec_encode(),
        a.spec_encode().len() == 16,
{
}

/// Where each field stands in the record.
pub proof fn lemma_encode_layout(info: SystemInfo)
    ensures
        info.spec_encode().len() == 16,
        info.spec_encode()[0] == info.cpu_usage,
        info.spec_encode()[1] + 256 * info.spec_encode()[2] == info.ram_max,
        info.spec_encode()[3] == info.ram_usage,
        info.spec_encode().subrange(4, 8) == info.ram_unit@,
        info.spec_encode()[8] == info.gpu_usage,
        info.spec_encode()[9] + 256 * info.spec_encode()[10] == info.vram_max,
        info.spec_encode()[11] == info.vram_usage,
        info.spec_encode().subrange(12, 16) == info.vram_unit@,
{
}

/// A snapshot shows what the strategies add to each other: where the
/// registry yields a size and the power sampler a load, the snapshot holds
/// that load, held to 100, and that size, scaled by 1024.
pub proof fn lemma_snapshot_combines_strategies(
    unified_memory: bool,
    registry: Option<Seq<char>>,
    sampler: Option<Seq<char>>,
    inventory: Option<Seq<char>>,
    memory_size: Option<Seq<char>>,
    size: u64,
    load: u64,
)
    requires
        GpuStrategy::Registry.spec_yield(registry) == Some(size),
        GpuStrategy::PowerSampler.spec_yield(sampler) == Some(load),
    ensures
        spec_gpu_stats(
            Some(spec_get_gpu_info(unified_memory, registry, sampler, inventory, memory_size)),
        ) == (
            spec_clamp_percent(load),
            spec_low_u16(spec_scale(size, 1024).mantissa),
            0u8,
            unit_field(spec_scale(size, 1024).exponent),
        ),
{
}

/// Where no strategy yields anything, the snapshot holds 0 for the load,
/// for the size and for the memory in use, and the unit B.
pub proof fn lemma_snapshot_without_gpu_values(
    unified_memory: bool,
    registry: Option<Seq<char>>,
    sampler: Option<Seq<char>>,
    inventory: Option<Seq<char>>,
    memory_size: Option<Seq<char>>,
)
    requires
        GpuStrategy::Registry.spec_yield(registry) is None,
        GpuStrategy::PowerSampler.spec_yield(sampler) is None,
        GpuStrategy::Inventory.spec_yield(inventory) is None,
        GpuStrategy::UnifiedMemory.spec_yield(memory_size) is None,
    ensures
        spec_gpu_stats(
            Some(spec_get_gpu_info(unified_memory, registry, sampler, inventory, memory_size)),
        ) == (0u8, 0u16, 0u8, seq![0x42u8, 0u8, 0u8, 0u8]),
{
    lemma_powers_of_1024();
}

} // verus!
