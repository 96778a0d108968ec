//! The block-benchmark engine: configuration, the position permutation
//! for random access, the offset plan, progress and result arithmetic.
//!
//! The engine plans and accounts a timed run; the caller performs the
//! file I/O the plan prescribes and reports what happened. A run moves
//! `block_count` blocks of `block_size` bytes, sequentially or at a
//! permutation of the block positions generated once up front.

use vstd::prelude::*;
use vstd::seq_lib::group_to_multiset_ensures;
use vstd::string::StringSliceAdditionalSpecFns;

use rand::seq::SliceRandom;

use crate::disk::{mounts_of, ShallowDisk};
use crate::text::split_nl;
use crate::DiskError;

verus! {

broadcast use group_to_multiset_ensures;

/// Whether a run reads or writes.
#[derive(Clone, Copy, PartialEq, Eq, Structural, Debug)]
pub enum BenchmarkType {
    Read,
    Write,
}

/// One benchmark's configuration. The run moves
/// `block_size * block_count` bytes in all.
#[derive(Clone, Debug)]
pub struct BenchmarkConfig {
    /// Whether this is a read or write benchmark.
    pub kind: BenchmarkType,
    /// Block size in bytes.
    pub block_size: usize,
    /// Amount of blocks.
    pub block_count: usize,
    /// A custom target file, as a byte path; the run then leaves the
    /// file in place.
    pub file_path: Option<Vec<u8>>,
    /// Delete the created test file after the run. Leaving this off
    /// leaves a test file of the full run size behind on the mount.
    pub delete_after: bool,
    /// Whether the blocks are visited sequentially or at shuffled
    /// positions.
    pub random: bool,
}

impl Default for BenchmarkConfig {
    /// 4 KiB blocks, 1 Mi of them (4 GiB in all), sequential read of a
    /// fresh file that is deleted afterwards.
    fn default() -> (r: Self)
        ensures
            r.kind == BenchmarkType::Read,
            r.block_size == 4096,
            r.block_count == 1048576,
            r.file_path is None,
            r.delete_after,
            !r.random,
    {
        BenchmarkConfig {
            kind: BenchmarkType::Read,
            block_size: 4 * 1024,
            block_count: 1024 * 1024,
            file_path: None,
            delete_after: true,
            random: false,
        }
    }
}

impl BenchmarkConfig {
    /// The bytes one run moves: `block_size * block_count`.
    pub fn total_size(&self) -> (r: usize)
        requires
            self.block_size * self.block_count <= usize::MAX,
        ensures
            r == self.block_size * self.block_count,
    {
        self.block_size * self.block_count
    }
}

/// Average throughput in bytes per second:
/// `total_size / elapsed_seconds`, over nanoseconds.
pub open spec fn speed_of(total: nat, elapsed_nanos: nat) -> int
    recommends
        elapsed_nanos > 0,
{
    (total * 1000000000) as int / elapsed_nanos as int
}

/// The average throughput of a run that moved `total` bytes over
/// `elapsed_nanos` nanoseconds.
pub fn avg_speed(total: u64, elapsed_nanos: u64) -> (r: u64)
    requires
        elapsed_nanos > 0,
        speed_of(total as nat, elapsed_nanos as nat) <= u64::MAX,
    ensures
        r == speed_of(total as nat, elapsed_nanos as nat),
{
    let s = (total as u128 * 1000000000) / (elapsed_nanos as u128);
    s as u64
}

/// What a finished run reports: the timed interval and the average
/// throughput across it.
#[derive(Clone, Copy, PartialEq, Eq, Structural, Debug)]
pub struct BenchmarkResult {
    /// The timed I/O interval, in nanoseconds. File pre-fill time for
    /// reads is not part of it.
    pub elapsed_nanos: u64,
    /// Average bytes per second across the interval.
    pub avg_speed: u64,
}

/// What a running benchmark reports after every block.
#[derive(Clone, Copy, PartialEq, Eq, Structural, Debug)]
pub struct BenchmarkProgress {
    /// Time since the timed phase began, in nanoseconds.
    pub elapsed_nanos: u64,
    /// Average bytes per second so far.
    pub avg_speed: u64,
    /// Blocks done so far; over `block_count` this is the completed
    /// fraction.
    pub blocks_done: usize,
    pub block_count: usize,
}

impl Default for BenchmarkProgress {
    /// The progress of a run that has not started.
    fn default() -> (r: Self)
        ensures
            r.elapsed_nanos == 0,
            r.avg_speed == 0,
            r.blocks_done == 0,
            r.block_count == 0,
    {
        BenchmarkProgress { elapsed_nanos: 0, avg_speed: 0, blocks_done: 0, block_count: 0 }
    }
}

/// The progress after `blocks_done` of `block_count` blocks:
/// `pct = blocks_done / block_count`, with the throughput accounted
/// over the bytes of a whole run.
pub fn progress_at(
    blocks_done: usize,
    block_count: usize,
    total: u64,
    elapsed_nanos: u64,
) -> (r: BenchmarkProgress)
    requires
        elapsed_nanos > 0,
        speed_of(total as nat, elapsed_nanos as nat) <= u64::MAX,
    ensures
        r.elapsed_nanos == elapsed_nanos,
        r.avg_speed == speed_of(total as nat, elapsed_nanos as nat),
        r.blocks_done == blocks_done,
        r.block_count == block_count,
{
    BenchmarkProgress {
        elapsed_nanos,
        avg_speed: avg_speed(total, elapsed_nanos),
        blocks_done,
        block_count,
    }
}

/// Relies on `rand::seq::SliceRandom::shuffle`: it reorders the slice
/// in place, drawing the order from the thread's generator, so only the
/// multiset of elements is kept. Which permutation comes out differs
/// from call to call.
#[verifier::external_body]
fn shuffle_positions(v: &mut Vec<usize>)
    ensures
        final(v)@.to_multiset() == old(v)@.to_multiset(),
{
    v.shuffle(&mut rand::rng());
}

/// The block positions of one run over `block_count` blocks: the
/// identity order sequentially, a full permutation of
/// `[0, block_count)` in random mode — every position exactly once,
/// no duplicates, full coverage, whatever order the shuffle drew.
pub fn generate_positions(block_count: usize, random: bool) -> (r: Vec<usize>)
    ensures
        r@.len() == block_count,
        forall|i: int| 0 <= i < r@.len() ==> r@[i] < block_count,
        forall|x: usize| x < block_count ==> r@.to_multiset().count(x) == 1,
        !random ==> r@ == Seq::new(block_count as nat, |i: int| i as usize),
{
    let ghost ident = Seq::new(block_count as nat, |i: int| i as usize);
    let mut v: Vec<usize> = Vec::new();
    let mut i: usize = 0;
    while i < block_count
        invariant
            0 <= i <= block_count,
            v@ =~= Seq::new(i as nat, |j: int| j as usize),
        decreases block_count - i,
    {
        v.push(i);
        i = i + 1;
    }
    proof {
        assert(v@ =~= ident);
        assert(v@.no_duplicates());
        v@.lemma_multiset_has_no_duplicates();
        assert forall|x: usize| x < block_count implies v@.to_multiset().count(x) == 1 by {
            assert(v@[x as int] == x);
            assert(v@.contains(x));
        }
    }
    if random {
        let ghost before = v@;
        shuffle_positions(&mut v);
        proof {
            assert(v@.to_multiset().len() == before.to_multiset().len());
            assert(v@.len() == block_count);
            assert forall|i: int| 0 <= i < v@.len() implies v@[i] < block_count by {
                assert(v@.contains(v@[i]));
                assert(v@.to_multiset().count(v@[i]) > 0);
                assert(before.to_multiset().count(v@[i]) > 0);
                assert(before.contains(v@[i]));
            }
        }
    }
    v
}

/// The byte offsets a run visits: position times block size, one per
/// block, in the positions' order.
pub fn block_offsets(block_size: usize, positions: &Vec<usize>) -> (r: Vec<u64>)
    requires
        forall|i: int| 0 <= i < positions@.len() ==> positions@[i] < positions@.len(),
        positions@.len() * block_size <= u64::MAX,
    ensures
        r@.len() == positions@.len(),
        forall|i: int| 0 <= i < r@.len() ==> r@[i] == positions@[i] * block_size,
{
    let mut r: Vec<u64> = Vec::new();
    let mut i: usize = 0;
    while i < positions.len()
        invariant
            0 <= i <= positions@.len(),
            forall|j: int| 0 <= j < positions@.len() ==> positions@[j] < positions@.len(),
            positions@.len() * block_size <= u64::MAX,
            r@.len() == i,
            forall|j: int| 0 <= j < i ==> r@[j] == positions@[j] * block_size,
        decreases positions@.len() - i,
    {
        let pos = positions[i];
        proof {
            assert(pos * block_size <= positions@.len() * block_size) by (nonlinear_arith)
                requires
                    pos < positions@.len() || (pos == positions@.len() && positions@.len() == 0),
                    0 <= pos,
                    0 <= block_size,
                    pos <= positions@.len(),
            ;
        }
        let off = (pos as u64) * (block_size as u64);
        r.push(off);
        i = i + 1;
    }
    r
}

/// The bytes a completed run over the planned offsets moves: one block
/// per offset.
pub open spec fn bytes_moved(ops: Seq<u64>, block_size: nat) -> int {
    ops.len() * block_size as int
}

/// For any configuration with `block_size * block_count = N`, a
/// completed write-then-read cycle moves exactly N bytes on each side:
/// each side performs one block-sized transfer per planned offset, and
/// each plan holds one offset per block.
pub proof fn lemma_cycle_moves_total(
    config: BenchmarkConfig,
    write_ops: Seq<u64>,
    read_ops: Seq<u64>,
)
    requires
        write_ops.len() == config.block_count,
        read_ops.len() == config.block_count,
    ensures
        bytes_moved(write_ops, config.block_size as nat) == config.block_size
            * config.block_count,
        bytes_moved(read_ops, config.block_size as nat) == config.block_size * config.block_count,
{
    vstd::arithmetic::mul::lemma_mul_is_commutative(
        config.block_count as int,
        config.block_size as int,
    );
}

/// The fixed name of the test file a run creates at the root of the
/// disk's mount.
pub open spec fn test_file_name() -> Seq<u8> {
    "glacierdisk-test.bin"@.map_values(|c: char| c as u8)
}

/// Where a run does its I/O: the explicit file if one was configured,
/// else the test file at the root of the resolved mount.
pub open spec fn target_path_spec(file_path: Option<Seq<u8>>, mount: Seq<u8>) -> Seq<u8> {
    match file_path {
        Option::Some(p) => p,
        Option::None => mount + seq![47u8] + test_file_name(),
    }
}

/// Append all of `s`.
fn push_all(out: &mut Vec<u8>, s: &[u8])
    ensures
        final(out)@ == old(out)@ + s@,
{
    let mut i: usize = 0;
    while i < s.len()
        invariant
            0 <= i <= s@.len(),
            out@ =~= old(out)@ + s@.subrange(0, i as int),
        decreases s@.len() - i,
    {
        out.push(s[i]);
        i = i + 1;
    }
    proof {
        assert(out@ =~= old(out)@ + s@);
    }
}

/// The chunk size of the read pre-fill, which streams the file in 1024
/// equal chunks: `total / 1024`. By design the division must be exact,
/// so the total size is required to be a multiple of 1024.
pub fn fill_chunk_size(total: usize) -> (r: usize)
    requires
        total % 1024 == 0,
    ensures
        r == total / 1024,
        r * 1024 == total,
{
    total / 1024
}

/// The fields of `a` are those of `b`, the file path compared by
/// contents.
pub open spec fn config_like(a: BenchmarkConfig, b: BenchmarkConfig) -> bool {
    &&& a.kind == b.kind
    &&& a.block_size == b.block_size
    &&& a.block_count == b.block_count
    &&& match (a.file_path, b.file_path) {
        (Option::Some(x), Option::Some(y)) => x@ == y@,
        (Option::None, Option::None) => true,
        _ => false,
    }
    &&& a.delete_after == b.delete_after
    &&& a.random == b.random
}

/// The identity of `a` is that of `b`.
pub open spec fn disk_like(a: ShallowDisk, b: ShallowDisk) -> bool {
    &&& a.path@ == b.path@
    &&& a.kind == b.kind
    &&& a.ata_link.port == b.ata_link.port
    &&& a.ata_link.speed@ == b.ata_link.speed@
}

/// The mount the run targets: entry `index` of the disk's mount
/// points, or `NotFound` when the disk has no mount there.
fn resolve_mount(disk: &ShallowDisk, index: usize, mounts_table: &[u8]) -> (r: Result<
    Vec<u8>,
    DiskError,
>)
    ensures
        match r {
            Ok(m) => index < mounts_of(
                split_nl(mounts_table@),
                vstd::utf8::encode_utf8(disk.path@),
            ).len() && m@ == mounts_of(
                split_nl(mounts_table@),
                vstd::utf8::encode_utf8(disk.path@),
            )[index as int],
            Err(e) => e == DiskError::NotFound && index >= mounts_of(
                split_nl(mounts_table@),
                vstd::utf8::encode_utf8(disk.path@),
            ).len(),
        },
{
    let mut mounts = disk.mounts(mounts_table);
    if index >= mounts.len() {
        return Err(DiskError::NotFound);
    }
    let m = crate::text::copy_range(mounts[index].as_slice(), 0, mounts[index].len());
    proof {
        assert(m@ =~= mounts.deep_view()[index as int]);
    }
    Ok(m)
}

/// A configurable block benchmark against one mount of a disk: the
/// states are idle, running, and done or failed; there is no pause and
/// no cancellation.
pub struct GlacierDiskBenchmark {
    pub disk: ShallowDisk,
    pub mount: Vec<u8>,
    pub running: bool,
    /// Benchmark block configuration.
    pub bench_config: BenchmarkConfig,
}

/// Where a run with the given configured file does its I/O: that file,
/// or the test file at the root of `mount`.
pub fn target_path_of(file_path: &Option<Vec<u8>>, mount: &Vec<u8>) -> (r: Vec<u8>)
    ensures
        r@ == target_path_spec(
            match file_path {
                Option::Some(p) => Option::Some(p@),
                Option::None => Option::None,
            },
            mount@,
        ),
{
    match file_path {
        Some(p) => {
            let r = crate::text::copy_range(p.as_slice(), 0, p.len());
            proof {
                assert(r@ =~= p@);
            }
            r
        },
        None => {
            let mut r = crate::text::copy_range(mount.as_slice(), 0, mount.len());
            proof {
                assert(r@ =~= mount@);
                vstd::string::is_ascii_spec_bytes("glacierdisk-test.bin");
                reveal_strlit("glacierdisk-test.bin");
                assert("glacierdisk-test.bin".spec_bytes() =~= test_file_name());
            }
            r.push(47);
            push_all(&mut r, "glacierdisk-test.bin".as_bytes());
            proof {
                assert(r@ =~= mount@ + seq![47u8] + test_file_name());
            }
            r
        },
    }
}

/// Whether a run under this configuration deletes its file afterwards:
/// it does unless deletion was switched off or an explicit persistent
/// path was configured.
pub fn should_delete_of(config: &BenchmarkConfig) -> (r: bool)
    ensures
        r == (config.delete_after && config.file_path is None),
{
    config.delete_after && match &config.file_path {
        Some(_) => false,
        None => true,
    }
}

impl GlacierDiskBenchmark {
    /// An idle benchmark against mount `index` of the disk, resolved
    /// from the mount table the caller read. `NotFound` when the disk
    /// has no mount at that index.
    pub fn new(
        disk: ShallowDisk,
        index: usize,
        bench_config: BenchmarkConfig,
        mounts_table: &[u8],
    ) -> (r: Result<Self, DiskError>)
        ensures
            match r {
                Ok(b) => disk_like(b.disk, disk) && config_like(b.bench_config, bench_config)
                    && !b.running && index < mounts_of(
                    split_nl(mounts_table@),
                    vstd::utf8::encode_utf8(disk.path@),
                ).len() && b.mount@ == mounts_of(
                    split_nl(mounts_table@),
                    vstd::utf8::encode_utf8(disk.path@),
                )[index as int],
                Err(e) => e == DiskError::NotFound && index >= mounts_of(
                    split_nl(mounts_table@),
                    vstd::utf8::encode_utf8(disk.path@),
                ).len(),
            },
    {
        let mount = match resolve_mount(&disk, index, mounts_table) {
            Ok(m) => m,
            Err(e) => {
                return Err(e);
            },
        };
        Ok(GlacierDiskBenchmark { disk, mount, running: false, bench_config })
    }

    /// Where this run does its I/O: the configured file, or the test
    /// file at the root of the resolved mount.
    pub fn target_path(&self) -> (r: Vec<u8>)
        ensures
            r@ == target_path_spec(
                match self.bench_config.file_path {
                    Option::Some(p) => Option::Some(p@),
                    Option::None => Option::None,
                },
                self.mount@,
            ),
    {
        target_path_of(&self.bench_config.file_path, &self.mount)
    }

    /// Whether the run deletes its file afterwards: it does unless
    /// deletion was switched off or an explicit persistent path was
    /// configured.
    pub fn should_delete(&self) -> (r: bool)
        ensures
            r == (self.bench_config.delete_after && self.bench_config.file_path is None),
    {
        should_delete_of(&self.bench_config)
    }

    /// Mark the run as started; nothing else changes.
    pub fn begin(&mut self)
        ensures
            final(self).running,
            disk_like(final(self).disk, old(self).disk),
            final(self).mount@ == old(self).mount@,
            config_like(final(self).bench_config, old(self).bench_config),
    {
        self.running = true;
    }

    /// Account a completed run: the benchmark is idle again and the
    /// result carries the timed interval and the average throughput
    /// `total_size / elapsed_seconds` across it.
    pub fn finish(&mut self, elapsed_nanos: u64) -> (r: BenchmarkResult)
        requires
            elapsed_nanos > 0,
            old(self).bench_config.block_size * old(self).bench_config.block_count
                <= u64::MAX,
            speed_of(
                (old(self).bench_config.block_size * old(self).bench_config.block_count) as nat,
                elapsed_nanos as nat,
            ) <= u64::MAX,
        ensures
            !final(self).running,
            disk_like(final(self).disk, old(self).disk),
            final(self).mount@ == old(self).mount@,
            config_like(final(self).bench_config, old(self).bench_config),
            r.elapsed_nanos == elapsed_nanos,
            r.avg_speed == speed_of(
                (old(self).bench_config.block_size * old(self).bench_config.block_count) as nat,
                elapsed_nanos as nat,
            ),
    {
        self.running = false;
        let total = (self.bench_config.block_size as u64) * (self.bench_config.block_count as u64);
        BenchmarkResult { elapsed_nanos, avg_speed: avg_speed(total, elapsed_nanos) }
    }
}


/// A read benchmark that reports progress after every block. The run
/// itself is the caller's I/O loop; this holds its state.
pub struct ReadBenchmark {
    pub disk: ShallowDisk,
    pub mount: Vec<u8>,
    pub running: bool,
    pub progress: BenchmarkProgress,
    /// Benchmark block configuration.
    pub bench_config: BenchmarkConfig,
}

impl ReadBenchmark {
    /// An idle read benchmark against mount `index` of the disk.
    /// `NotFound` when the disk has no mount at that index.
    pub fn new(
        disk: ShallowDisk,
        index: usize,
        bench_config: BenchmarkConfig,
        mounts_table: &[u8],
    ) -> (r: Result<Self, DiskError>)
        ensures
            match r {
                Ok(b) => disk_like(b.disk, disk) && config_like(b.bench_config, bench_config)
                    && !b.running && b.progress == BenchmarkProgress {
                    elapsed_nanos: 0,
                    avg_speed: 0,
                    blocks_done: 0,
                    block_count: 0,
                } && index < mounts_of(
                    split_nl(mounts_table@),
                    vstd::utf8::encode_utf8(disk.path@),
                ).len() && b.mount@ == mounts_of(
                    split_nl(mounts_table@),
                    vstd::utf8::encode_utf8(disk.path@),
                )[index as int],
                Err(e) => e == DiskError::NotFound && index >= mounts_of(
                    split_nl(mounts_table@),
                    vstd::utf8::encode_utf8(disk.path@),
                ).len(),
            },
    {
        let mount = match resolve_mount(&disk, index, mounts_table) {
            Ok(m) => m,
            Err(e) => {
                return Err(e);
            },
        };
        Ok(
            ReadBenchmark {
                disk,
                mount,
                running: false,
                progress: BenchmarkProgress::default(),
                bench_config,
            },
        )
    }
}

/// A write benchmark that reports progress after every block.
pub struct WriteBenchmark {
    pub disk: ShallowDisk,
    pub mount: Vec<u8>,
    pub running: bool,
    pub progress: BenchmarkProgress,
    /// Benchmark block configuration.
    pub bench_config: BenchmarkConfig,
}

impl WriteBenchmark {
    /// An idle write benchmark against mount `index` of the disk.
    /// `NotFound` when the disk has no mount at that index.
    pub fn new(
        disk: ShallowDisk,
        index: usize,
        bench_config: BenchmarkConfig,
        mounts_table: &[u8],
    ) -> (r: Result<Self, DiskError>)
        ensures
            match r {
                Ok(b) => disk_like(b.disk, disk) && config_like(b.bench_config, bench_config)
                    && !b.running && b.progress == BenchmarkProgress {
                    elapsed_nanos: 0,
                    avg_speed: 0,
                    blocks_done: 0,
                    block_count: 0,
                } && index < mounts_of(
                    split_nl(mounts_table@),
                    vstd::utf8::encode_utf8(disk.path@),
                ).len() && b.mount@ == mounts_of(
                    split_nl(mounts_table@),
                    vstd::utf8::encode_utf8(disk.path@),
                )[index as int],
                Err(e) => e == DiskError::NotFound && index >= mounts_of(
                    split_nl(mounts_table@),
                    vstd::utf8::encode_utf8(disk.path@),
                ).len(),
            },
    {
        let mount = match resolve_mount(&disk, index, mounts_table) {
            Ok(m) => m,
            Err(e) => {
                return Err(e);
            },
        };
        Ok(
            WriteBenchmark {
                disk,
                mount,
                running: false,
                progress: BenchmarkProgress::default(),
                bench_config,
            },
        )
    }
}

/// A sequential-read benchmark: a progress-reporting run whose blocks
/// are always visited in order.
pub struct ReadSequentialBenchmark {
    pub disk: ShallowDisk,
    pub mount: Vec<u8>,
    pub running: bool,
    pub progress: BenchmarkProgress,
    /// Benchmark block configuration.
    pub bench_config: BenchmarkConfig,
}

impl ReadSequentialBenchmark {
    /// An idle sequential-read benchmark against mount `index` of the
    /// disk. `NotFound` when the disk has no mount at that index.
    pub fn new(
        disk: ShallowDisk,
        index: usize,
        bench_config: BenchmarkConfig,
        mounts_table: &[u8],
    ) -> (r: Result<Self, DiskError>)
        ensures
            match r {
                Ok(b) => disk_like(b.disk, disk) && config_like(b.bench_config, bench_config)
                    && !b.running && b.progress == BenchmarkProgress {
                    elapsed_nanos: 0,
                    avg_speed: 0,
                    blocks_done: 0,
                    block_count: 0,
                } && index < mounts_of(
                    split_nl(mounts_table@),
                    vstd::utf8::encode_utf8(disk.path@),
                ).len() && b.mount@ == mounts_of(
                    split_nl(mounts_table@),
                    vstd::utf8::encode_utf8(disk.path@),
                )[index as int],
                Err(e) => e == DiskError::NotFound && index >= mounts_of(
                    split_nl(mounts_table@),
                    vstd::utf8::encode_utf8(disk.path@),
                ).len(),
            },
    {
        let mount = match resolve_mount(&disk, index, mounts_table) {
            Ok(m) => m,
            Err(e) => {
                return Err(e);
            },
        };
        Ok(
            ReadSequentialBenchmark {
                disk,
                mount,
                running: false,
                progress: BenchmarkProgress::default(),
                bench_config,
            },
        )
    }
}

/// A sequential-write benchmark: a progress-reporting run whose blocks
/// are always visited in order.
pub struct WriteSequentialBenchmark {
    pub disk: ShallowDisk,
    pub mount: Vec<u8>,
    pub running: bool,
    pub progress: BenchmarkProgress,
    /// Benchmark block configuration.
    pub bench_config: BenchmarkConfig,
}

impl WriteSequentialBenchmark {
    /// An idle sequential-write benchmark against mount `index` of the
    /// disk. `NotFound` when the disk has no mount at that index.
    pub fn new(
        disk: ShallowDisk,
        index: usize,
        bench_config: BenchmarkConfig,
        mounts_table: &[u8],
    ) -> (r: Result<Self, DiskError>)
        ensures
            match r {
                Ok(b) => disk_like(b.disk, disk) && config_like(b.bench_config, bench_config)
                    && !b.running && b.progress == BenchmarkProgress {
                    elapsed_nanos: 0,
                    avg_speed: 0,
                    blocks_done: 0,
                    block_count: 0,
                } && index < mounts_of(
                    split_nl(mounts_table@),
                    vstd::utf8::encode_utf8(disk.path@),
                ).len() && b.mount@ == mounts_of(
                    split_nl(mounts_table@),
                    vstd::utf8::encode_utf8(disk.path@),
                )[index as int],
                Err(e) => e == DiskError::NotFound && index >= mounts_of(
                    split_nl(mounts_table@),
                    vstd::utf8::encode_utf8(disk.path@),
                ).len(),
            },
    {
        let mount = match resolve_mount(&disk, index, mounts_table) {
            Ok(m) => m,
            Err(e) => {
                return Err(e);
            },
        };
        Ok(
            WriteSequentialBenchmark {
                disk,
                mount,
                running: false,
                progress: BenchmarkProgress::default(),
                bench_config,
            },
        )
    }
}

/// The canned profiles a caller picks from.
#[derive(Clone, Copy, PartialEq, Eq, Structural, Debug)]
pub enum BenchKind {
    ALL,
    SEQ1M,
    SEQ128K,
    RAND4K,
}

/// The profile of 1 MiB sequential blocks sized to `test_size`.
pub open spec fn seq1m_config(c: BenchmarkConfig, test_size: int) -> bool {
    c.kind == BenchmarkType::Read && c.block_size == 1048576 && c.block_count == test_size
        / 1048576 && c.file_path is None && c.delete_after && !c.random
}

/// The profile of 128 KiB sequential blocks sized to `test_size`.
pub open spec fn seq128k_config(c: BenchmarkConfig, test_size: int) -> bool {
    c.kind == BenchmarkType::Read && c.block_size == 131072 && c.block_count == test_size
        / 131072 && c.file_path is None && c.delete_after && !c.random
}

/// The profile of 4 KiB random blocks sized to `test_size`.
pub open spec fn rand4k_config(c: BenchmarkConfig, test_size: int) -> bool {
    c.kind == BenchmarkType::Read && c.block_size == 4096 && c.block_count == test_size / 4096
        && c.file_path is None && c.delete_after && c.random
}

/// The benchmark configurations of one canned profile, each sized so
/// that `block_count * block_size` approximates `test_size`: 1 MiB
/// sequential, 128 KiB sequential, 4 KiB random, or all three.
pub fn get_configs(kind: &BenchKind, test_size: usize) -> (r: Vec<BenchmarkConfig>)
    ensures
        match kind {
            BenchKind::ALL => r@.len() == 3 && seq1m_config(r@[0], test_size as int)
                && seq128k_config(r@[1], test_size as int) && rand4k_config(
                r@[2],
                test_size as int,
            ),
            BenchKind::SEQ1M => r@.len() == 1 && seq1m_config(r@[0], test_size as int),
            BenchKind::SEQ128K => r@.len() == 1 && seq128k_config(r@[0], test_size as int),
            BenchKind::RAND4K => r@.len() == 1 && rand4k_config(r@[0], test_size as int),
        },
{
    let mut r: Vec<BenchmarkConfig> = Vec::new();
    match kind {
        BenchKind::ALL => {
            r.push(make_profile(1024 * 1024, test_size, false));
            r.push(make_profile(1024 * 128, test_size, false));
            r.push(make_profile(1024 * 4, test_size, true));
        },
        BenchKind::SEQ1M => {
            r.push(make_profile(1024 * 1024, test_size, false));
        },
        BenchKind::SEQ128K => {
            r.push(make_profile(1024 * 128, test_size, false));
        },
        BenchKind::RAND4K => {
            r.push(make_profile(1024 * 4, test_size, true));
        },
    }
    r
}

fn make_profile(block_size: usize, test_size: usize, random: bool) -> (c: BenchmarkConfig)
    requires
        block_size >= 1,
    ensures
        c.kind == BenchmarkType::Read,
        c.block_size == block_size,
        c.block_count == test_size as int / block_size as int,
        c.file_path is None,
        c.delete_after,
        c.random == random,
{
    BenchmarkConfig {
        kind: BenchmarkType::Read,
        block_size,
        block_count: test_size / block_size,
        file_path: None,
        delete_after: true,
        random,
    }
}

/// The name of the persistent file the paired runs share on the mount.
pub open spec fn mark_file_name() -> Seq<u8> {
    "glacier-disk-mark.bin"@.map_values(|c: char| c as u8)
}

/// The write-then-read pair of one profile configuration, both against
/// the same persistent file at the root of `mount`: the write keeps the
/// file for the read, and the read deletes it afterwards.
pub fn rw_configs(config: &BenchmarkConfig, mount: &[u8]) -> (r: (BenchmarkConfig,
    BenchmarkConfig))
    ensures
        r.0.kind == BenchmarkType::Write,
        r.1.kind == BenchmarkType::Read,
        r.0.block_size == config.block_size && r.1.block_size == config.block_size,
        r.0.block_count == config.block_count && r.1.block_count == config.block_count,
        r.0.random == config.random && r.1.random == config.random,
        !r.0.delete_after,
        r.1.delete_after,
        r.0.file_path matches Some(p) && p@ == mount@ + seq![47u8] + mark_file_name(),
        r.1.file_path matches Some(p) && p@ == mount@ + seq![47u8] + mark_file_name(),
{
    proof {
        vstd::string::is_ascii_spec_bytes("glacier-disk-mark.bin");
        reveal_strlit("glacier-disk-mark.bin");
        assert("glacier-disk-mark.bin".spec_bytes() =~= mark_file_name());
    }
    let mut path: Vec<u8> = crate::text::copy_range(mount, 0, mount.len());
    proof {
        assert(path@ =~= mount@);
    }
    path.push(47);
    push_all(&mut path, "glacier-disk-mark.bin".as_bytes());
    proof {
        assert(path@ =~= mount@ + seq![47u8] + mark_file_name());
    }
    let mut path2: Vec<u8> = crate::text::copy_range(path.as_slice(), 0, path.len());
    proof {
        assert(path2@ =~= path@);
    }
    let w = BenchmarkConfig {
        kind: BenchmarkType::Write,
        block_size: config.block_size,
        block_count: config.block_count,
        file_path: Some(path),
        delete_after: false,
        random: config.random,
    };
    let r = BenchmarkConfig {
        kind: BenchmarkType::Read,
        block_size: config.block_size,
        block_count: config.block_count,
        file_path: Some(path2),
        delete_after: true,
        random: config.random,
    };
    (w, r)
}

} // verus!
