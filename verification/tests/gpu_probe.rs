use flipper_monitor::gpu_info_macos::GpuInfo;
use flipper_monitor::gpu_probe::{GpuProbe, GpuStrategy};
use flipper_monitor::system_info::SystemInfo;

const REGISTRY: &str = "\"VRAM,totalMB\" = 1536\n";
const SAMPLER: &str = "GPU active residency:  42.50%\n";
const INVENTORY: &str = "      VRAM (Total): 4 GB\n";
const MEMORY: &str = "17179869184\n";
const EMPTY: &str = "nothing of use\n";

const MIB: u64 = 1024 * 1024;
const GIB: u64 = 1024 * MIB;

#[test]
fn test_gpu_info() {
    let info = GpuInfo::get_gpu_info(true, None, None, None, None);
    assert!(info.is_some());
    println!("GPU Info: {:?}", info);
}

#[test]
fn registry_size_and_sampler_load_are_both_told() {
    let info = GpuInfo::get_gpu_info(true, Some(REGISTRY), Some(SAMPLER), None, None);
    assert_eq!(info, Some(GpuInfo { gpu_usage: 42, vram_max: 1536 * MIB, vram_used: 0 }));
    let info = GpuInfo::get_gpu_info(false, Some(REGISTRY), Some(SAMPLER), Some(INVENTORY), Some(MEMORY));
    assert_eq!(info, Some(GpuInfo { gpu_usage: 42, vram_max: 1536 * MIB, vram_used: 0 }));
    let snapshot = SystemInfo::get_system_info(1, GIB, GIB, info);
    assert_eq!(snapshot.gpu_usage, 42);
    assert_eq!(snapshot.vram_max, 1);
    assert_eq!(&snapshot.vram_unit, b"GB\0\0");
    assert_eq!(snapshot.vram_usage, 0);
}

#[test]
fn first_size_that_is_yielded_wins() {
    let all = GpuInfo::get_gpu_info(true, Some(REGISTRY), None, Some(INVENTORY), Some(MEMORY));
    assert_eq!(all.unwrap().vram_max, 1536 * MIB);
    let no_registry = GpuInfo::get_gpu_info(true, Some(EMPTY), None, Some(INVENTORY), Some(MEMORY));
    assert_eq!(no_registry.unwrap().vram_max, 4 * GIB);
    let registry_failed = GpuInfo::get_gpu_info(true, None, None, Some(INVENTORY), Some(MEMORY));
    assert_eq!(registry_failed.unwrap().vram_max, 4 * GIB);
    let only_memory = GpuInfo::get_gpu_info(true, Some(EMPTY), None, Some(EMPTY), Some(MEMORY));
    assert_eq!(only_memory.unwrap().vram_max, 16 * GIB);
    let not_shared = GpuInfo::get_gpu_info(false, Some(EMPTY), None, Some(EMPTY), Some(MEMORY));
    assert_eq!(not_shared.unwrap().vram_max, 0);
}

#[test]
fn nothing_yielded_gives_zeros() {
    let zero = Some(GpuInfo { gpu_usage: 0, vram_max: 0, vram_used: 0 });
    assert_eq!(GpuInfo::get_gpu_info(true, None, None, None, None), zero);
    assert_eq!(GpuInfo::get_gpu_info(false, None, None, None, None), zero);
    assert_eq!(GpuInfo::get_gpu_info(true, Some(EMPTY), Some(EMPTY), Some(EMPTY), Some(EMPTY)), zero);
    assert_eq!(GpuInfo::get_gpu_info(true, Some(""), Some(""), Some(""), Some("")), zero);
}

#[test]
fn strategies_read_their_own_text() {
    assert_eq!(GpuStrategy::Registry.extract(REGISTRY), Some(1536 * MIB));
    assert_eq!(GpuStrategy::PowerSampler.extract(SAMPLER), Some(42));
    assert_eq!(GpuStrategy::Inventory.extract(INVENTORY), Some(4 * GIB));
    assert_eq!(GpuStrategy::UnifiedMemory.extract(MEMORY), Some(16 * GIB));
    assert_eq!(GpuStrategy::Registry.extract(SAMPLER), None);
    assert_eq!(GpuStrategy::PowerSampler.extract(REGISTRY), None);
    assert_eq!(GpuStrategy::Inventory.extract(MEMORY), None);
    assert_eq!(GpuStrategy::UnifiedMemory.extract(INVENTORY), None);
}

fn drive(unified: bool, texts: [Option<&str>; 4]) -> (GpuInfo, Vec<GpuStrategy>) {
    let mut probe = GpuProbe::new(unified);
    let mut asked = Vec::new();
    while let Some(strategy) = probe.next_strategy() {
        asked.push(strategy);
        let text = match strategy {
            GpuStrategy::Registry => texts[0],
            GpuStrategy::PowerSampler => texts[1],
            GpuStrategy::Inventory => texts[2],
            GpuStrategy::UnifiedMemory => texts[3],
        };
        probe.record(text);
        assert!(asked.len() <= 4);
    }
    (probe.finish(), asked)
}

#[test]
fn probe_stops_asking_for_a_size_once_it_has_one() {
    let (info, asked) = drive(true, [Some(REGISTRY), Some(SAMPLER), Some(INVENTORY), Some(MEMORY)]);
    assert_eq!(asked, vec![GpuStrategy::Registry, GpuStrategy::PowerSampler]);
    assert_eq!(info, GpuInfo { gpu_usage: 42, vram_max: 1536 * MIB, vram_used: 0 });

    let (info, asked) = drive(true, [None, Some(SAMPLER), Some(INVENTORY), Some(MEMORY)]);
    assert_eq!(asked, vec![GpuStrategy::Registry, GpuStrategy::PowerSampler, GpuStrategy::Inventory]);
    assert_eq!(info, GpuInfo { gpu_usage: 42, vram_max: 4 * GIB, vram_used: 0 });

    let (info, asked) = drive(true, [None, None, None, Some(MEMORY)]);
    assert_eq!(
        asked,
        vec![
            GpuStrategy::Registry,
            GpuStrategy::PowerSampler,
            GpuStrategy::Inventory,
            GpuStrategy::UnifiedMemory
        ]
    );
    assert_eq!(info, GpuInfo { gpu_usage: 0, vram_max: 16 * GIB, vram_used: 0 });

    let (info, asked) = drive(false, [None, None, None, Some(MEMORY)]);
    assert_eq!(asked, vec![GpuStrategy::Registry, GpuStrategy::PowerSampler, GpuStrategy::Inventory]);
    assert_eq!(info, GpuInfo { gpu_usage: 0, vram_max: 0, vram_used: 0 });
}

#[test]
fn probe_agrees_with_the_reading_taken_at_once() {
    let choices = [None, Some(EMPTY), Some(REGISTRY), Some(SAMPLER), Some(INVENTORY), Some(MEMORY)];
    for unified in [false, true] {
        for a in choices {
            for b in choices {
                for c in choices {
                    for d in choices {
                        let (info, _) = drive(unified, [a, b, c, d]);
                        assert_eq!(Some(info), GpuInfo::get_gpu_info(unified, a, b, c, d));
                    }
                }
            }
        }
    }
}

#[test]
fn finished_probe_takes_nothing_more() {
    let mut probe = GpuProbe::new(false);
    probe.record(Some(REGISTRY));
    probe.record(None);
    assert_eq!(probe.next_strategy(), None);
    let before = probe;
    probe.record(Some(INVENTORY));
    assert_eq!(probe, before);
    assert_eq!(probe.finish(), GpuInfo { gpu_usage: 0, vram_max: 1536 * MIB, vram_used: 0 });
}
