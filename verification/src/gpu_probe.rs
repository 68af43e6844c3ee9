//! The strategies for learning about the graphics processor, and how
//! they are combined.
//!
//! No single tool tells everything, and any tool may be missing or print
//! what cannot be read. The strategies are tried in a fixed order, the
//! cheapest first. Each contributes what it yields: the size of the video
//! memory comes from the first strategy that yields one, the load from the
//! power sampler. What none yields is 0.

use crate::gpu_info_macos::{
    spec_extract_gpu_usage_from_powermetrics, spec_extract_vram_from_ioreg,
    spec_extract_vram_from_system_profiler, spec_total_memory, GpuInfo,
};
use vstd::prelude::*;

verus! {

/// A way of learning about the graphics processor.
#[derive(Clone, Copy, Debug, PartialEq, Eq, Structural)]
pub enum GpuStrategy {
    /// Ask the hardware registry for the size of the video memory.
    Registry,
    /// Ask the power sampler for the load.
    PowerSampler,
    /// Ask the hardware inventory for the size of the video memory.
    Inventory,
    /// Take the size of the main memory for that of the video memory.
    UnifiedMemory,
}

impl GpuStrategy {
    /// What the strategy reads from the text that its tool printed.
    pub open spec fn spec_extract(self, output: Seq<char>) -> Option<u64> {
        match self {
            GpuStrategy::Registry => spec_extract_vram_from_ioreg(output),
            GpuStrategy::PowerSampler => spec_extract_gpu_usage_from_powermetrics(output),
            GpuStrategy::Inventory => spec_extract_vram_from_system_profiler(output),
            GpuStrategy::UnifiedMemory => spec_total_memory(output),
        }
    }

    /// What the strategy yields: what it reads from the text of its tool,
    /// and nothing where the tool gave no text.
    pub open spec fn spec_yield(self, output: Option<Seq<char>>) -> Option<u64> {
        match output {
            Some(text) => self.spec_extract(text),
            None => None,
        }
    }

    /// Reads the strategy's value from the text that its tool printed.
    pub fn extract(&self, output: &str) -> (r: Option<u64>)
        ensures
            r == self.spec_extract(output@),
    {
        match self {
            GpuStrategy::Registry => GpuInfo::extract_vram_from_ioreg(output),
            GpuStrategy::PowerSampler => GpuInfo::extract_gpu_usage_from_powermetrics(output),
            GpuStrategy::Inventory => GpuInfo::extract_vram_from_system_profiler(output),
            GpuStrategy::UnifiedMemory => GpuInfo::get_total_vram_apple_silicon(output),
        }
    }
}

/// The text that a tool printed, if it could be run.
pub open spec fn text_of(output: Option<&str>) -> Option<Seq<char>> {
    match output {
        Some(text) => Some(text@),
        None => None,
    }
}

/// The first of three values that is there.
pub open spec fn first_of(a: Option<u64>, b: Option<u64>, c: Option<u64>) -> Option<u64> {
    if a is Some {
        a
    } else if b is Some {
        b
    } else {
        c
    }
}

/// `value`, or 0 where there is none.
pub open spec fn or_zero(value: Option<u64>) -> u64 {
    match value {
        Some(v) => v,
        None => 0,
    }
}

/// What the strategies together tell of the graphics processor. The size
/// of the video memory is that of the first strategy that yields one: the
/// registry, the inventory, and with shared memory the size of the main
/// memory. The load is what the power sampler yields. What no strategy
/// yields is 0, and so is the memory in use.
pub open spec fn spec_get_gpu_info(
    unified_memory: bool,
    registry: Option<Seq<char>>,
    sampler: Option<Seq<char>>,
    inventory: Option<Seq<char>>,
    memory_size: Option<Seq<char>>,
) -> GpuInfo {
    GpuInfo {
        gpu_usage: or_zero(GpuStrategy::PowerSampler.spec_yield(sampler)),
        vram_max: or_zero(
            first_of(
                GpuStrategy::Registry.spec_yield(registry),
                GpuStrategy::Inventory.spec_yield(inventory),
                if unified_memory {
                    GpuStrategy::UnifiedMemory.spec_yield(memory_size)
                } else {
                    None
                },
            ),
        ),
        vram_used: 0,
    }
}

/// The strategies taken in turn. The caller runs the tool of the strategy
/// that the probe names and hands its text back; the probe keeps what the
/// text yields and names the next strategy.
#[derive(Clone, Copy, Debug, PartialEq, Eq, Structural)]
pub struct GpuProbe {
    /// Whether the graphics processor shares the main memory.
    pub unified_memory: bool,
    /// How many of the four strategies have had their turn.
    pub attempted: u8,
    /// The size of the video memory, once a strategy has yielded it.
    pub vram_max: Option<u64>,
    /// The load, once the power sampler has yielded it.
    pub gpu_usage: Option<u64>,
}

impl GpuProbe {
    /// The strategy whose turn it is: the registry, then the power sampler;
    /// then, while no size is known, the inventory and, with shared memory,
    /// the size of the main memory. `None` when the probe is done.
    pub open spec fn spec_next(self) -> Option<GpuStrategy> {
        if self.attempted == 0 {
            Some(GpuStrategy::Registry)
        } else if self.attempted == 1 {
            Some(GpuStrategy::PowerSampler)
        } else if self.attempted == 2 && self.vram_max is None {
            Some(GpuStrategy::Inventory)
        } else if self.attempted == 3 && self.vram_max is None && self.unified_memory {
            Some(GpuStrategy::UnifiedMemory)
        } else {
            None
        }
    }

    /// The probe after the strategy whose turn it is has had `output` from
    /// its tool. A probe that is done stays as it is.
    pub open spec fn spec_record(self, output: Option<Seq<char>>) -> GpuProbe {
        match self.spec_next() {
            Some(GpuStrategy::Registry) => GpuProbe {
                attempted: 1,
                vram_max: GpuStrategy::Registry.spec_yield(output),
                ..self
            },
            Some(GpuStrategy::PowerSampler) => GpuProbe {
                attempted: 2,
                gpu_usage: GpuStrategy::PowerSampler.spec_yield(output),
                ..self
            },
            Some(GpuStrategy::Inventory) => GpuProbe {
                attempted: 3,
                vram_max: GpuStrategy::Inventory.spec_yield(output),
                ..self
            },
            Some(GpuStrategy::UnifiedMemory) => GpuProbe {
                attempted: 4,
                vram_max: GpuStrategy::UnifiedMemory.spec_yield(output),
                ..self
            },
            None => self,
        }
    }

    /// What the probe has learnt, with 0 for what it has not.
    pub open spec fn spec_finish(self) -> GpuInfo {
        GpuInfo { gpu_usage: or_zero(self.gpu_usage), vram_max: or_zero(self.vram_max), vram_used: 0 }
    }

    /// A probe before its first strategy.
    pub fn new(unified_memory: bool) -> (r: GpuProbe)
        ensures
            r == (GpuProbe { unified_memory, attempted: 0, vram_max: None, gpu_usage: None }),
    {
        GpuProbe { unified_memory, attempted: 0, vram_max: None, gpu_usage: None }
    }

    /// Names the strategy whose turn it is.
    pub fn next_strategy(&self) -> (r: Option<GpuStrategy>)
        ensures
            r == self.spec_next(),
    {
        if self.attempted == 0 {
            Some(GpuStrategy::Registry)
        } else if self.attempted == 1 {
            Some(GpuStrategy::PowerSampler)
        } else if self.attempted == 2 && self.vram_max.is_none() {
            Some(GpuStrategy::Inventory)
        } else if self.attempted == 3 && self.vram_max.is_none() && self.unified_memory {
            Some(GpuStrategy::UnifiedMemory)
        } else {
            None
        }
    }

    /// Takes the text that the tool of the strategy in turn printed, or
    /// `None` where the tool could not be run.
    pub fn record(&mut self, output: Option<&str>)
        ensures
            *final(self) == old(self).spec_record(text_of(output)),
    {
        match self.next_strategy() {
            Some(strategy) => {
                let value = match output {
                    Some(text) => strategy.extract(text),
                    None => None,
                };
                match strategy {
                    GpuStrategy::Registry => {
                        self.attempted = 1;
                        self.vram_max = value;
                    },
                    GpuStrategy::PowerSampler => {
                        self.attempted = 2;
                        self.gpu_usage = value;
                    },
                    GpuStrategy::Inventory => {
                        self.attempted = 3;
                        self.vram_max = value;
                    },
                    GpuStrategy::UnifiedMemory => {
                        self.attempted = 4;
                        self.vram_max = value;
                    },
                }
            },
            None => {},
        }
    }

    /// Gives what the probe has learnt, with 0 for what it has not.
    pub fn finish(&self) -> (r: GpuInfo)
        ensures
            r == self.spec_finish(),
    {
        let gpu_usage: u64 = match self.gpu_usage {
            Some(v) => v,
            None => 0,
        };
        let vram_max: u64 = match self.vram_max {
            Some(v) => v,
            None => 0,
        };
        GpuInfo { gpu_usage, vram_max, vram_used: 0 }
    }
}

impl GpuInfo {
    /// Puts together what the four tools printed; `None` stands for a tool
    /// that could not be run. The tools are consulted as a probe consults
    /// them, and a reading is always given.
    pub fn get_gpu_info(
        unified_memory: bool,
        registry: Option<&str>,
        sampler: Option<&str>,
        inventory: Option<&str>,
        memory_size: Option<&str>,
    ) -> (r: Option<GpuInfo>)
        ensures
            r == Some(
                spec_get_gpu_info(
                    unified_memory,
                    text_of(registry),
                    text_of(sampler),
                    text_of(inventory),
                    text_of(memory_size),
                ),
            ),
    {
        let mut probe = GpuProbe::new(unified_memory);
        probe.record(registry);
        probe.record(sampler);
        if probe.vram_max.is_none() {
            probe.record(inventory);
        }
        if probe.vram_max.is_none() && unified_memory {
            probe.record(memory_size);
        }
        Some(probe.finish())
    }
}

/// The text among the four that belongs to a strategy.
pub open spec fn output_for(
    strategy: GpuStrategy,
    registry: Option<Seq<char>>,
    sampler: Option<Seq<char>>,
    inventory: Option<Seq<char>>,
    memory_size: Option<Seq<char>>,
) -> Option<Seq<char>> {
    match strategy {
        GpuStrategy::Registry => registry,
        GpuStrategy::PowerSampler => sampler,
        GpuStrategy::Inventory => inventory,
        GpuStrategy::UnifiedMemory => memory_size,
    }
}

/// The probe that is reached from `probe` when each strategy in turn is
/// handed its text, until the probe is done.
pub open spec fn spec_drive(
    probe: GpuProbe,
    registry: Option<Seq<char>>,
    sampler: Option<Seq<char>>,
    inventory: Option<Seq<char>>,
    memory_size: Option<Seq<char>>,
) -> GpuProbe
    decreases 4 - probe.attempted,
{
    match probe.spec_next() {
        Some(strategy) => spec_drive(
            probe.spec_record(output_for(strategy, registry, sampler, inventory, memory_size)),
            registry,
            sampler,
            inventory,
            memory_size,
        ),
        None => probe,
    }
}

/// A probe that is driven through its strategies learns what the
/// strategies together tell.
pub proof fn lemma_probe_gives_gpu_info(
    unified_memory: bool,
    registry: Option<Seq<char>>,
    sampler: Option<Seq<char>>,
    inventory: Option<Seq<char>>,
    memory_size: Option<Seq<char>>,
)
    ensures
        spec_drive(
            GpuProbe { unified_memory, attempted: 0, vram_max: None, gpu_usage: None },
            registry,
            sampler,
            inventory,
            memory_size,
        ).spec_finish() == spec_get_gpu_info(
            unified_memory,
            registry,
            sampler,
            inventory,
            memory_size,
        ),
{
    reveal_with_fuel(spec_drive, 5);
}

/// The strategies add to each other: where the registry yields a size and
/// the power sampler a load, both are told, whatever the other tools
/// printed.
pub proof fn lemma_strategies_combine(
    unified_memory: bool,
    registry: Option<Seq<char>>,
    sampler: Option<Seq<char>>,
    inventory: Option<Seq<char>>,
    memory_size: Option<Seq<char>>,
    size: u64,
    load: u64,
)
    requires
        GpuStrategy::Registry.spec_yield(registry) == Some(size),
        GpuStrategy::PowerSampler.spec_yield(sampler) == Some(load),
    ensures
        spec_get_gpu_info(unified_memory, registry, sampler, inventory, memory_size) == (GpuInfo {
            gpu_usage: load,
            vram_max: size,
            vram_used: 0,
        }),
{
}

/// Where no strategy yields anything, all that is told is 0.
pub proof fn lemma_no_strategy_yields(
    unified_memory: bool,
    registry: Option<Seq<char>>,
    sampler: Option<Seq<char>>,
    inventory: Option<Seq<char>>,
    memory_size: Option<Seq<char>>,
)
    requires
        GpuStrategy::Registry.spec_yield(registry) is None,
        GpuStrategy::PowerSampler.spec_yield(sampler) is None,
        GpuStrategy::Inventory.spec_yield(inventory) is None,
        GpuStrategy::UnifiedMemory.spec_yield(memory_size) is None,
    ensures
        spec_get_gpu_info(unified_memory, registry, sampler, inventory, memory_size) == (GpuInfo {
            gpu_usage: 0,
            vram_max: 0,
            vram_used: 0,
        }),
{
}

} // verus!
