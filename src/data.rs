use vstd::prelude::*;

verus! {

/// Identifier of a partition: a contiguous subset of a table's data.
#[derive(Clone, Copy, Debug, PartialEq, Eq, Structural)]
pub struct PartitionId {
    pub id: i64,
}

impl PartitionId {
    pub fn new(id: i64) -> (r: PartitionId)
        ensures
            r.id == id,
    {
        PartitionId { id }
    }

    pub fn get(&self) -> (r: i64)
        ensures
            r == self.id,
    {
        self.id
    }
}

/// Identifier of a persisted file, assigned by the catalog.
#[derive(Clone, Copy, Debug, PartialEq, Eq, Structural)]
pub struct ParquetFileId {
    pub id: i64,
}

impl ParquetFileId {
    pub fn new(id: i64) -> (r: ParquetFileId)
        ensures
            r.id == id,
    {
        ParquetFileId { id }
    }

    pub fn get(&self) -> (r: i64)
        ensures
            r == self.id,
    {
        self.id
    }
}

/// Maturity stage of a file; a file's level never decreases.
#[derive(Clone, Copy, Debug, PartialEq, Eq, Structural)]
pub enum CompactionLevel {
    Initial,
    FileNonOverlapped,
    Final,
}

impl CompactionLevel {
    /// Position of the level in the order `Initial < FileNonOverlapped < Final`.
    pub open spec fn rank(self) -> int {
        match self {
            CompactionLevel::Initial => 0,
            CompactionLevel::FileNonOverlapped => 1,
            CompactionLevel::Final => 2,
        }
    }

    pub fn get(&self) -> (r: u8)
        ensures
            r as int == self.rank(),
    {
        match self {
            CompactionLevel::Initial => 0,
            CompactionLevel::FileNonOverlapped => 1,
            CompactionLevel::Final => 2,
        }
    }
}

/// Metadata of a persisted file.
#[derive(Clone, Copy, Debug, PartialEq, Eq, Structural)]
pub struct ParquetFile {
    pub id: ParquetFileId,
    pub partition_id: PartitionId,
    pub compaction_level: CompactionLevel,
    pub min_time: i64,
    pub max_time: i64,
    pub file_size_bytes: i64,
    pub row_count: i64,
}

/// Description of a file about to be created; it has no identifier yet.
#[derive(Clone, Copy, Debug, PartialEq, Eq, Structural)]
pub struct ParquetFileParams {
    pub partition_id: PartitionId,
    pub compaction_level: CompactionLevel,
    pub min_time: i64,
    pub max_time: i64,
    pub file_size_bytes: i64,
    pub row_count: i64,
}

/// Closed time ranges `[min_time, max_time]` of two files intersect.
pub open spec fn ranges_intersect(a: ParquetFile, b: ParquetFile) -> bool {
    a.min_time <= b.max_time && b.min_time <= a.max_time
}

/// The same file with another compaction level.
pub open spec fn with_level(f: ParquetFile, level: CompactionLevel) -> ParquetFile {
    ParquetFile { compaction_level: level, ..f }
}

/// The file that `p` describes, once the catalog has given it identifier `id`.
pub open spec fn params_to_file(p: ParquetFileParams, id: ParquetFileId) -> ParquetFile {
    ParquetFile {
        id,
        partition_id: p.partition_id,
        compaction_level: p.compaction_level,
        min_time: p.min_time,
        max_time: p.max_time,
        file_size_bytes: p.file_size_bytes,
        row_count: p.row_count,
    }
}

impl ParquetFile {
    pub fn new(
        id: i64,
        partition_id: i64,
        compaction_level: CompactionLevel,
        min_time: i64,
        max_time: i64,
    ) -> (r: ParquetFile)
        ensures
            r.id.id == id,
            r.partition_id.id == partition_id,
            r.compaction_level == compaction_level,
            r.min_time == min_time,
            r.max_time == max_time,
            r.file_size_bytes == 0,
            r.row_count == 0,
    {
        ParquetFile {
            id: ParquetFileId { id },
            partition_id: PartitionId { id: partition_id },
            compaction_level,
            min_time,
            max_time,
            file_size_bytes: 0,
            row_count: 0,
        }
    }

    /// Whether the closed time ranges of the two files intersect.
    pub fn overlaps(&self, other: &ParquetFile) -> (r: bool)
        ensures
            r == ranges_intersect(*self, *other),
    {
        self.min_time <= other.max_time && other.min_time <= self.max_time
    }

    /// The same file with its level changed to `level`.
    pub fn upgraded(&self, level: CompactionLevel) -> (r: ParquetFile)
        ensures
            r == with_level(*self, level),
    {
        ParquetFile { compaction_level: level, ..*self }
    }
}

impl ParquetFileParams {
    /// The file these parameters describe, under identifier `id`.
    pub fn into_file(&self, id: ParquetFileId) -> (r: ParquetFile)
        ensures
            r == params_to_file(*self, id),
    {
        ParquetFile {
            id,
            partition_id: self.partition_id,
            compaction_level: self.compaction_level,
            min_time: self.min_time,
            max_time: self.max_time,
            file_size_bytes: self.file_size_bytes,
            row_count: self.row_count,
        }
    }
}

/// One compaction attempt on one partition.
#[derive(Clone, Copy, Debug, PartialEq, Eq, Structural)]
pub struct CompactionJob {
    pub partition_id: PartitionId,
}

impl CompactionJob {
    pub fn new(partition_id: PartitionId) -> (r: CompactionJob)
        ensures
            r.partition_id == partition_id,
    {
        CompactionJob { partition_id }
    }
}

} // verus!
