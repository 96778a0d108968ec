use glacierdisk::ata::DiskAtaLink;
use glacierdisk::benchmark::{avg_speed, block_offsets, fill_chunk_size, generate_positions,
    get_configs, progress_at, rw_configs, BenchKind, BenchmarkConfig, BenchmarkProgress,
    BenchmarkType, GlacierDiskBenchmark, ReadBenchmark, WriteBenchmark};
use glacierdisk::disk::ShallowDisk;
use glacierdisk::kind::DiskKind;
use glacierdisk::DiskError;

const MOUNTS: &[u8] = b"/dev/sda1 /mnt ext4 rw,relatime 0 0\n\
/dev/sda2 /data ext4 rw,relatime 0 0\n\
/dev/sdb1 /other ext4 rw 0 0\n";

fn disk(path: &str) -> ShallowDisk {
    ShallowDisk {
        path: path.to_string(),
        kind: DiskKind::SSD,
        ata_link: DiskAtaLink::default(),
    }
}

#[test]
fn sequential_positions_are_the_identity() {
    let p = generate_positions(8, false);
    assert_eq!(p, vec![0, 1, 2, 3, 4, 5, 6, 7]);
}

#[test]
fn random_positions_are_a_bijection() {
    let mut p = generate_positions(64, true);
    assert_eq!(p.len(), 64);
    p.sort();
    let expected: Vec<usize> = (0..64).collect();
    assert_eq!(p, expected);
}

#[test]
fn zero_blocks_generate_no_positions() {
    assert!(generate_positions(0, true).is_empty());
}

#[test]
fn offsets_scale_positions_by_block_size() {
    let p = vec![2usize, 0, 1];
    let offs = block_offsets(4096, &p);
    assert_eq!(offs, vec![8192, 0, 4096]);
}

#[test]
fn default_config() {
    let c = BenchmarkConfig::default();
    assert!(matches!(c.kind, BenchmarkType::Read));
    assert_eq!(c.block_size, 4096);
    assert_eq!(c.block_count, 1024 * 1024);
    assert!(c.file_path.is_none());
    assert!(c.delete_after);
    assert!(!c.random);
}

#[test]
fn total_size_is_the_product() {
    let c = BenchmarkConfig { block_size: 4096, block_count: 256, ..BenchmarkConfig::default() };
    assert_eq!(c.total_size(), 1048576);
}

#[test]
fn average_speed_formula() {
    // 1 MiB over two seconds.
    assert_eq!(avg_speed(1048576, 2_000_000_000), 524288);
    // 1 MiB over one second.
    assert_eq!(avg_speed(1048576, 1_000_000_000), 1048576);
}

#[test]
fn progress_reports_the_completed_fraction() {
    let p = progress_at(64, 256, 1048576, 500_000_000);
    assert_eq!(p.blocks_done, 64);
    assert_eq!(p.block_count, 256);
    assert_eq!(p.elapsed_nanos, 500_000_000);
    assert_eq!(p.avg_speed, 2097152);
}

#[test]
fn fill_chunks_are_an_exact_1024th() {
    assert_eq!(fill_chunk_size(4096 * 256), 1024);
    assert_eq!(fill_chunk_size(1024), 1);
}

#[test]
fn new_resolves_the_indexed_mount() {
    let b = GlacierDiskBenchmark::new(disk("/dev/sda"), 1, BenchmarkConfig::default(), MOUNTS)
        .unwrap();
    assert_eq!(b.mount, b"/data".to_vec());
    assert!(!b.running);
}

#[test]
fn new_without_a_mount_is_not_found() {
    let r = GlacierDiskBenchmark::new(disk("/dev/sdc"), 0, BenchmarkConfig::default(), MOUNTS);
    assert!(matches!(r, Err(DiskError::NotFound)));
    let r = GlacierDiskBenchmark::new(disk("/dev/sda"), 2, BenchmarkConfig::default(), MOUNTS);
    assert!(matches!(r, Err(DiskError::NotFound)));
}

#[test]
fn progress_variants_resolve_mounts_too() {
    let b = ReadBenchmark::new(disk("/dev/sda"), 0, BenchmarkConfig::default(), MOUNTS).unwrap();
    assert_eq!(b.mount, b"/mnt".to_vec());
    assert_eq!(b.progress, BenchmarkProgress::default());
    let b = WriteBenchmark::new(disk("/dev/sdb"), 0, BenchmarkConfig::default(), MOUNTS).unwrap();
    assert_eq!(b.mount, b"/other".to_vec());
}

#[test]
fn write_run_decisions() {
    // A write of 256 blocks of 4 KiB, sequential, deleting its file:
    // the planned transfers move exactly 1 MiB, the file goes to the
    // mount root, and the file is removed after the run.
    let config = BenchmarkConfig {
        kind: BenchmarkType::Write,
        block_size: 4096,
        block_count: 256,
        file_path: None,
        delete_after: true,
        random: false,
    };
    let b = GlacierDiskBenchmark::new(disk("/dev/sda"), 0, config, MOUNTS).unwrap();
    assert_eq!(b.target_path(), b"/mnt/glacierdisk-test.bin".to_vec());
    assert!(b.should_delete());
    let positions = generate_positions(b.bench_config.block_count, b.bench_config.random);
    let offsets = block_offsets(b.bench_config.block_size, &positions);
    assert_eq!(offsets.len() * b.bench_config.block_size, 1048576);
    assert_eq!(*offsets.last().unwrap(), 255 * 4096);
}

#[test]
fn completed_run_reports_throughput() {
    let config = BenchmarkConfig {
        kind: BenchmarkType::Write,
        block_size: 4096,
        block_count: 256,
        file_path: None,
        delete_after: true,
        random: false,
    };
    let mut b = GlacierDiskBenchmark::new(disk("/dev/sda"), 0, config, MOUNTS).unwrap();
    b.begin();
    assert!(b.running);
    let r = b.finish(1_000_000_000);
    assert!(!b.running);
    assert_eq!(r.elapsed_nanos, 1_000_000_000);
    assert_eq!(r.avg_speed, 1048576);
}

#[test]
fn an_explicit_path_is_kept() {
    let config = BenchmarkConfig {
        file_path: Some(b"/data/mine.bin".to_vec()),
        ..BenchmarkConfig::default()
    };
    let b = GlacierDiskBenchmark::new(disk("/dev/sda"), 0, config, MOUNTS).unwrap();
    assert_eq!(b.target_path(), b"/data/mine.bin".to_vec());
    assert!(!b.should_delete());
}

#[test]
fn canned_profiles() {
    let gib = 1024 * 1024 * 1024;
    let seq1m = get_configs(&BenchKind::SEQ1M, gib);
    assert_eq!(seq1m.len(), 1);
    assert_eq!(seq1m[0].block_size, 1024 * 1024);
    assert_eq!(seq1m[0].block_count, 1024);
    assert!(!seq1m[0].random);
    let seq128k = get_configs(&BenchKind::SEQ128K, gib);
    assert_eq!(seq128k[0].block_size, 128 * 1024);
    assert_eq!(seq128k[0].block_count, 8192);
    assert!(!seq128k[0].random);
    let rand4k = get_configs(&BenchKind::RAND4K, gib);
    assert_eq!(rand4k[0].block_size, 4096);
    assert_eq!(rand4k[0].block_count, 262144);
    assert!(rand4k[0].random);
    let all = get_configs(&BenchKind::ALL, gib);
    assert_eq!(all.len(), 3);
    assert_eq!(all[0].block_size, 1024 * 1024);
    assert_eq!(all[1].block_size, 128 * 1024);
    assert_eq!(all[2].block_size, 4096);
}

#[test]
fn paired_runs_share_a_persistent_file() {
    let base = BenchmarkConfig { block_size: 1024 * 1024, block_count: 64,
        ..BenchmarkConfig::default() };
    let (w, r) = rw_configs(&base, b"/mnt");
    assert!(matches!(w.kind, BenchmarkType::Write));
    assert!(matches!(r.kind, BenchmarkType::Read));
    assert_eq!(w.file_path.as_deref(), Some(&b"/mnt/glacier-disk-mark.bin"[..]));
    assert_eq!(r.file_path.as_deref(), Some(&b"/mnt/glacier-disk-mark.bin"[..]));
    assert!(!w.delete_after);
    assert!(r.delete_after);
    assert_eq!(w.block_size, 1024 * 1024);
    assert_eq!(r.block_count, 64);
}
