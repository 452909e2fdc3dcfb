//! The health of a stored file: every placed shard is probed, and the file is judged by
//! how many shards of each chunk answered.

use vstd::prelude::*;
use crate::bytes::bytes_equal;
use crate::manifest::{Manifest, ShardLocation};
use crate::params::DATA_SHARDS;
use crate::wire::{pong_missing, pong_ok};

verus! {

/// What a probe found of one shard.
#[derive(Clone, Copy, Debug, PartialEq, Eq, Structural)]
pub enum ShardHealth {
    /// The peer holds the shard.
    Healthy,
    /// The peer answered, and does not hold the shard.
    Degraded,
    /// The peer did not answer in time, or not with a probe's answer.
    Unreachable,
}

/// What the probes say of a file.
#[derive(Clone, Copy, Debug, PartialEq, Eq, Structural)]
pub enum FileStatus {
    /// Every placed shard is held.
    Healthy,
    /// Some shard is not, and every chunk still has six that are.
    Degraded,
    /// Some chunk has fewer than six shards that are held.
    Critical,
}

/// What the answer to a probe says; `None` stands for a timeout or an I/O error.
pub open spec fn probe_outcome(reply: Option<Seq<u8>>) -> ShardHealth {
    match reply {
        Some(bytes) => if bytes == pong_ok() {
            ShardHealth::Healthy
        } else if bytes == pong_missing() {
            ShardHealth::Degraded
        } else {
            ShardHealth::Unreachable
        },
        None => ShardHealth::Unreachable,
    }
}

/// Number of healthy shards among the first `upto` entries of the shard map that belong
/// to the chunk `chunk`.
pub open spec fn healthy_count(
    shard_map: Seq<ShardLocation>,
    health: Seq<ShardHealth>,
    chunk: int,
    upto: nat,
) -> nat
    decreases upto,
{
    if upto == 0 {
        0
    } else {
        let i = upto - 1;
        healthy_count(shard_map, health, chunk, i as nat) + if shard_map[i].chunk_index == chunk
            && health[i] == ShardHealth::Healthy {
            1nat
        } else {
            0nat
        }
    }
}

/// Number of healthy shards among the first `upto` probes.
pub open spec fn healthy_total(health: Seq<ShardHealth>, upto: nat) -> nat
    decreases upto,
{
    if upto == 0 {
        0
    } else {
        healthy_total(health, (upto - 1) as nat) + if health[upto - 1] == ShardHealth::Healthy {
            1nat
        } else {
            0nat
        }
    }
}

/// Every probe found its shard.
pub open spec fn all_healthy(health: Seq<ShardHealth>) -> bool {
    forall|i: int| 0 <= i < health.len() ==> #[trigger] health[i] == ShardHealth::Healthy
}

/// Every one of the first `chunk_count` chunks has at least six healthy shards.
pub open spec fn every_chunk_served(
    shard_map: Seq<ShardLocation>,
    health: Seq<ShardHealth>,
    chunk_count: nat,
) -> bool {
    forall|chunk: int|
        0 <= chunk < chunk_count ==> #[trigger] healthy_count(
            shard_map,
            health,
            chunk,
            shard_map.len(),
        ) >= DATA_SHARDS
}

/// The status of a file whose shards were probed, `health[i]` being what the probe of the
/// `i`-th entry of the shard map found.
pub open spec fn file_status(
    shard_map: Seq<ShardLocation>,
    health: Seq<ShardHealth>,
    chunk_count: nat,
) -> FileStatus {
    if all_healthy(health) {
        FileStatus::Healthy
    } else if every_chunk_served(shard_map, health, chunk_count) {
        FileStatus::Degraded
    } else {
        FileStatus::Critical
    }
}

/// Classifies the answer to a probe; `None` stands for a timeout or an I/O error.
pub fn classify_probe(reply: Option<&[u8]>) -> (health: ShardHealth)
    ensures
        health == probe_outcome(
            match reply {
                Some(bytes) => Some(bytes@),
                None => None,
            },
        ),
{
    match reply {
        Some(bytes) => {
            let ok: [u8; 8] = [80, 79, 78, 71, 58, 79, 75, 10];
            let missing: [u8; 13] = [80, 79, 78, 71, 58, 77, 73, 83, 83, 73, 78, 71, 10];
            if bytes_equal(bytes, ok.as_slice()) {
                ShardHealth::Healthy
            } else if bytes_equal(bytes, missing.as_slice()) {
                ShardHealth::Degraded
            } else {
                ShardHealth::Unreachable
            }
        },
        None => ShardHealth::Unreachable,
    }
}

/// Counts the healthy shards of a chunk.
pub fn count_healthy(
    shard_map: &Vec<ShardLocation>,
    health: &Vec<ShardHealth>,
    chunk: usize,
) -> (count: usize)
    requires
        health@.len() == shard_map@.len(),
    ensures
        count == healthy_count(shard_map@, health@, chunk as int, shard_map@.len()),
        count <= shard_map@.len(),
{
    let mut count: usize = 0;
    let mut i: usize = 0;
    while i < shard_map.len()
        invariant
            i <= shard_map@.len(),
            health@.len() == shard_map@.len(),
            count <= i,
            count == healthy_count(shard_map@, health@, chunk as int, i as nat),
        decreases shard_map@.len() - i,
    {
        if shard_map[i].chunk_index == chunk && health[i] == ShardHealth::Healthy {
            count = count + 1;
        }
        i = i + 1;
    }
    count
}

/// Counts the healthy shards of a file.
pub fn count_all_healthy(health: &Vec<ShardHealth>) -> (count: usize)
    ensures
        count == healthy_total(health@, health@.len()),
        count <= health@.len(),
        count == health@.len() <==> all_healthy(health@),
{
    let mut count: usize = 0;
    let mut i: usize = 0;
    while i < health.len()
        invariant
            i <= health@.len(),
            count <= i,
            count == healthy_total(health@, i as nat),
            count == i <==> forall|k: int| 0 <= k < i ==> #[trigger] health@[k]
                == ShardHealth::Healthy,
        decreases health@.len() - i,
    {
        if health[i] == ShardHealth::Healthy {
            count = count + 1;
        } else {
            assert(health@[i as int] != ShardHealth::Healthy);
        }
        i = i + 1;
    }
    count
}

/// Judges a file by the probes of its shards.
pub fn judge(
    shard_map: &Vec<ShardLocation>,
    health: &Vec<ShardHealth>,
    chunk_count: usize,
) -> (status: FileStatus)
    requires
        health@.len() == shard_map@.len(),
    ensures
        status == file_status(shard_map@, health@, chunk_count as nat),
{
    if count_all_healthy(health) == health.len() {
        return FileStatus::Healthy;
    }
    let mut chunk: usize = 0;
    while chunk < chunk_count
        invariant
            chunk <= chunk_count,
            health@.len() == shard_map@.len(),
            !all_healthy(health@),
            every_chunk_served(shard_map@, health@, chunk as nat),
        decreases chunk_count - chunk,
    {
        if count_healthy(shard_map, health, chunk) < DATA_SHARDS {
            return FileStatus::Critical;
        }
        chunk = chunk + 1;
    }
    FileStatus::Degraded
}

/// What is reported of a verified file.
#[derive(Clone, Debug, PartialEq, Eq)]
pub struct HealthReport {
    /// Identifier of the file.
    pub file_id: String,
    /// Number of shards that are held.
    pub healthy_shards: usize,
    /// Number of shards that are not, or whose peer did not answer.
    pub missing_shards: usize,
    /// The status of the file.
    pub status: FileStatus,
}

/// The verification of a file under way: the probes made so far, in the order of the
/// shard map.
#[derive(Debug)]
pub struct Verification {
    /// The recipe of the file.
    pub manifest: Manifest,
    /// What the probes found, one for each entry of the shard map probed so far.
    pub health: Vec<ShardHealth>,
}

impl Verification {
    /// The invariant of a verification: no more probes than shards.
    pub open spec fn wf(&self) -> bool {
        self.health@.len() <= self.manifest.shard_map@.len()
    }

    /// Every shard has been probed.
    pub open spec fn complete(&self) -> bool {
        self.health@.len() == self.manifest.shard_map@.len()
    }

    /// Begins the verification of the file that a manifest describes.
    pub fn begin(manifest: Manifest) -> (verification: Verification)
        ensures
            verification.wf(),
            verification.manifest == manifest,
            verification.health@.len() == 0,
    {
        Verification { manifest, health: Vec::new() }
    }

    /// Position in the shard map of the next shard to probe; `None` when every shard has
    /// been probed.
    pub fn next_probe(&self) -> (next: Option<usize>)
        requires
            self.wf(),
        ensures
            self.complete() ==> next is None,
            !self.complete() ==> next == Some(self.health@.len() as usize),
    {
        if self.health.len() < self.manifest.shard_map.len() {
            Some(self.health.len())
        } else {
            None
        }
    }

    /// Records the answer to the probe that was asked for last; `None` stands for a
    /// timeout or an I/O error.
    pub fn record(&mut self, reply: Option<&[u8]>)
        requires
            old(self).wf(),
            !old(self).complete(),
        ensures
            final(self).wf(),
            final(self).manifest == old(self).manifest,
            final(self).health@ == old(self).health@.push(
                probe_outcome(
                    match reply {
                        Some(bytes) => Some(bytes@),
                        None => None,
                    },
                ),
            ),
    {
        let health = classify_probe(reply);
        self.health.push(health);
    }

    /// The report on the file, once every shard has been probed.
    pub fn report(&self) -> (report: HealthReport)
        requires
            self.wf(),
            self.complete(),
        ensures
            report.file_id == self.manifest.file_id,
            report.healthy_shards == healthy_total(self.health@, self.health@.len()),
            report.healthy_shards + report.missing_shards == self.manifest.shard_map@.len(),
            report.status == file_status(
                self.manifest.shard_map@,
                self.health@,
                self.manifest.chunk_count as nat,
            ),
    {
        let healthy: usize = count_all_healthy(&self.health);
        HealthReport {
            file_id: self.manifest.file_id.clone(),
            healthy_shards: healthy,
            missing_shards: self.health.len() - healthy,
            status: judge(&self.manifest.shard_map, &self.health, self.manifest.chunk_count),
        }
    }
}

/// The word under which a status is reported.
pub fn status_name(status: FileStatus) -> (name: &'static str)
    ensures
        status == FileStatus::Healthy ==> name@ == "HEALTHY"@,
        status == FileStatus::Degraded ==> name@ == "DEGRADED"@,
        status == FileStatus::Critical ==> name@ == "CRITICAL"@,
{
    match status {
        FileStatus::Healthy => "HEALTHY",
        FileStatus::Degraded => "DEGRADED",
        FileStatus::Critical => "CRITICAL",
    }
}

} // verus!
