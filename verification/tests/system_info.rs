use flipper_monitor::gpu_info_macos::GpuInfo;
use flipper_monitor::helpers::pop_4u8;
use flipper_monitor::system_info::{clamp_percent, unit_bytes, usage_percent, SystemInfo};

const GIB: u64 = 1024 * 1024 * 1024;

#[test]
fn snapshot_of_a_host_with_sixteen_gibibytes() {
    let info = SystemInfo::get_system_info(37, 16 * GIB, 8 * GIB, None);
    assert_eq!(info.cpu_usage, 37);
    assert_eq!(info.ram_usage, 50);
    assert_eq!(info.ram_max, 16);
    assert_eq!(&info.ram_unit, b"GB\0\0");
}

#[test]
fn snapshot_without_a_gpu_reading() {
    let info = SystemInfo::get_system_info(5, 8 * GIB, 2 * GIB, None);
    assert_eq!(info.gpu_usage, 0);
    assert_eq!(info.vram_max, 0);
    assert_eq!(info.vram_usage, 0);
    assert_eq!(&info.vram_unit, b"GB\0\0");
    assert_eq!(SystemInfo::get_gpu_stats(None), (0, 0, 0, *b"GB\0\0"));
}

#[test]
fn snapshot_with_a_gpu_reading() {
    let gpu = GpuInfo { gpu_usage: 64, vram_max: 1536 * 1024 * 1024, vram_used: 512 * 1024 * 1024 };
    let info = SystemInfo::get_system_info(100, 32 * GIB, 32 * GIB, Some(gpu));
    assert_eq!(
        info,
        SystemInfo {
            cpu_usage: 100,
            ram_max: 32,
            ram_usage: 100,
            ram_unit: *b"GB\0\0",
            gpu_usage: 64,
            vram_max: 1,
            vram_usage: 33,
            vram_unit: *b"GB\0\0",
        }
    );
    let gpu = GpuInfo { gpu_usage: 3, vram_max: 512 * 1024 * 1024, vram_used: 0 };
    assert_eq!(SystemInfo::get_gpu_stats(Some(gpu)), (3, 512, 0, *b"MB\0\0"));
}

#[test]
fn snapshot_when_every_gpu_strategy_failed() {
    let gpu = GpuInfo::get_gpu_info(true, None, None, None, None);
    assert_eq!(gpu, Some(GpuInfo { gpu_usage: 0, vram_max: 0, vram_used: 0 }));
    let info = SystemInfo::get_system_info(12, 8 * GIB, 4 * GIB, gpu);
    assert_eq!(info.gpu_usage, 0);
    assert_eq!(info.vram_max, 0);
    assert_eq!(info.vram_usage, 0);
    assert_eq!(&info.vram_unit, b"B\0\0\0");
    assert_eq!(info.cpu_usage, 12);
    assert_eq!(info.ram_usage, 50);
}

#[test]
fn percentages_are_held_to_one_hundred() {
    let gpu = GpuInfo { gpu_usage: 300, vram_max: 10, vram_used: 99 };
    let info = SystemInfo::get_system_info(255, 10, 11, Some(gpu));
    assert_eq!(info.cpu_usage, 100);
    assert_eq!(info.ram_usage, 100);
    assert_eq!(info.gpu_usage, 100);
    assert_eq!(info.vram_usage, 100);
    assert_eq!(clamp_percent(0), 0);
    assert_eq!(clamp_percent(99), 99);
    assert_eq!(clamp_percent(100), 100);
    assert_eq!(clamp_percent(101), 100);
    assert_eq!(clamp_percent(u64::MAX), 100);
    let gpu = GpuInfo { gpu_usage: u64::MAX, vram_max: 0, vram_used: 5 };
    assert_eq!(SystemInfo::get_gpu_stats(Some(gpu)), (100, 0, 0, *b"B\0\0\0"));
}

#[test]
fn usage_without_memory_is_zero() {
    assert_eq!(usage_percent(0, 0), 0);
    assert_eq!(usage_percent(5, 0), 0);
    assert_eq!(usage_percent(u64::MAX, 0), 0);
    let info = SystemInfo::get_system_info(1, 0, 0, None);
    assert_eq!(info.ram_usage, 0);
    assert_eq!(info.ram_max, 0);
    assert_eq!(&info.ram_unit, b"B\0\0\0");
}

#[test]
fn usage_is_the_share_rounded_down() {
    assert_eq!(usage_percent(0, 10), 0);
    assert_eq!(usage_percent(1, 3), 33);
    assert_eq!(usage_percent(2, 3), 66);
    assert_eq!(usage_percent(3, 3), 100);
    assert_eq!(usage_percent(4, 3), 100);
    assert_eq!(usage_percent(8 * GIB, 16 * GIB), 50);
    assert_eq!(usage_percent(29, 100), 29);
    assert_eq!(usage_percent(99, 100), 99);
    assert_eq!(usage_percent(999, 1000), 99);
    assert_eq!(usage_percent(u64::MAX - 1, u64::MAX), 99);
    assert_eq!(usage_percent(u64::MAX, u64::MAX), 100);
    assert_eq!(usage_percent(u64::MAX / 2, u64::MAX), 49);
    let mut total: u64 = 1;
    while total <= 300 {
        let mut used: u64 = 0;
        while used <= total + 2 {
            let share = usage_percent(used, total);
            assert!(share <= 100);
            if used <= total {
                assert_eq!(share as u64, used * 100 / total);
            }
            used += 1;
        }
        total += 1;
    }
}

#[test]
fn sizes_beyond_sixteen_bits_keep_their_low_bits() {
    let tib: u64 = 1024 * GIB;
    let info = SystemInfo::get_system_info(0, 65_535 * tib, 0, None);
    assert_eq!(info.ram_max, 65_535);
    assert_eq!(&info.ram_unit, b"TB\0\0");
    let info = SystemInfo::get_system_info(0, 65_536 * tib, 0, None);
    assert_eq!(info.ram_max, 0);
    let info = SystemInfo::get_system_info(0, 65_541 * tib, 0, None);
    assert_eq!(info.ram_max, 5);
    let info = SystemInfo::get_system_info(0, u64::MAX, 0, None);
    assert_eq!(info.ram_max, 65_535);
    let info = SystemInfo::get_system_info(0, 1024, 0, None);
    assert_eq!(info.ram_max, 1024);
    assert_eq!(&info.ram_unit, b"B\0\0\0");
}

#[test]
fn unit_fields_are_padded_with_nul() {
    assert_eq!(unit_bytes(0), [b'B', 0, 0, 0]);
    assert_eq!(unit_bytes(1), [b'K', b'B', 0, 0]);
    assert_eq!(unit_bytes(2), [b'M', b'B', 0, 0]);
    assert_eq!(unit_bytes(3), [b'G', b'B', 0, 0]);
    assert_eq!(unit_bytes(4), [b'T', b'B', 0, 0]);
    assert_eq!(unit_bytes(5), [b'U', b'B', 0, 0]);
    assert_eq!(pop_4u8(b""), [0, 0, 0, 0]);
    assert_eq!(pop_4u8(b"B"), [b'B', 0, 0, 0]);
    assert_eq!(pop_4u8(b"GB"), [b'G', b'B', 0, 0]);
    assert_eq!(pop_4u8(b"abc"), [b'a', b'b', b'c', 0]);
    assert_eq!(pop_4u8(b"abcd"), *b"abcd");
    assert_eq!(pop_4u8(b"abcdef"), *b"abcd");
}

#[test]
fn record_has_the_fields_in_order() {
    let info = SystemInfo {
        cpu_usage: 37,
        ram_max: 16,
        ram_usage: 50,
        ram_unit: *b"GB\0\0",
        gpu_usage: 64,
        vram_max: 0x0601,
        vram_usage: 33,
        vram_unit: *b"MB\0\0",
    };
    assert_eq!(
        info.encode(),
        [37, 16, 0, 50, b'G', b'B', 0, 0, 64, 0x01, 0x06, 33, b'M', b'B', 0, 0]
    );
}

#[test]
fn record_is_the_same_for_the_same_snapshot() {
    let gpu = GpuInfo { gpu_usage: 9, vram_max: 4 * GIB, vram_used: GIB };
    let a = SystemInfo::get_system_info(37, 16 * GIB, 8 * GIB, Some(gpu));
    let b = SystemInfo::get_system_info(37, 16 * GIB, 8 * GIB, Some(gpu));
    assert_eq!(a, b);
    assert_eq!(a.encode(), b.encode());
    assert_eq!(a.encode(), a.clone().encode());
    assert_eq!(a.encode().len(), 16);
    assert_eq!(a.encode(), [37, 16, 0, 50, b'G', b'B', 0, 0, 9, 4, 0, 25, b'G', b'B', 0, 0]);
}

#[test]
fn record_writes_sizes_low_byte_first() {
    let mut info = SystemInfo::get_system_info(0, 0, 0, None);
    info.ram_max = 0xABCD;
    info.vram_max = 0xFFFE;
    let r = info.encode();
    assert_eq!((r[1], r[2]), (0xCD, 0xAB));
    assert_eq!((r[9], r[10]), (0xFE, 0xFF));
    assert_eq!(u16::from_le_bytes([r[1], r[2]]), 0xABCD);
}
