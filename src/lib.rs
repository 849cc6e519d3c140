//! Compaction planning and commit engine for time-partitioned data files.
//!
//! The library decides which files of a partition must be rewritten and which
//! can be promoted in place, applies the outcome to a catalog as one atomic
//! update, and records the terminal outcome of every partition job.
//!
//! Alongside it stand the pieces that serve queries and requests: sort keys
//! computed from chunk statistics, trace contexts decoded from request
//! headers, namespace resolution through a cache, and the request that
//! creates a namespace.

pub mod data;
pub mod files_split;
pub mod partition_stream;
pub mod scheduler;
pub mod local_scheduler;
pub mod commit;
pub mod partition_done_sink;
pub mod driver;
pub mod job_state;
pub mod namespace_create;
pub mod query;
pub mod hex;
pub mod headers;
pub mod trace_ctx;
pub mod sort_key;
pub mod namespace_resolver;

pub use data::{
    CompactionJob, CompactionLevel, ParquetFile, ParquetFileId, ParquetFileParams, PartitionId,
};
pub use files_split::{AllAtOnceNonOverlapSplit, FilesSplit, NonOverlapSplit};
pub use partition_stream::{MockPartitionsSource, OncePartititionStream, PartitionsSource};
pub use scheduler::{
    CommitUpdate, CompactionJobStatus, CompactionJobStatusResponse, CompactionJobStatusVariant,
    Scheduler, SchedulerError,
};
pub use local_scheduler::LocalScheduler;
pub use commit::CommitToScheduler;
pub use partition_done_sink::{
    FlakyStore, OutcomeStore, PartitionDoneSink, RetryPolicy, RetryStep, RetryingSink, SinkError,
    StoreUnavailable,
};
pub use driver::{finish_partition, plan_partition, CompactionPlan, JobError};
pub use job_state::{JobEvent, JobState};
pub use namespace_create::{
    retention_period_ns, Config, ConfigError, CreateNamespaceRequest, ServiceProtectionLimits,
    ServiceProtectionLimitsArgs, NANOS_PER_HOUR,
};
pub use query::QueryCompletedToken;
pub use hex::{parse_hex, IntErrorKind};
pub use headers::Headers;
pub use trace_ctx::{
    ContextError, ContextErrorKind, DecodeError, JaegerCtx, SpanContext, SpanId, TraceHeaderParser,
    TraceId,
};
pub use sort_key::{
    chunks_have_distinct_counts, compute_sort_key, compute_sort_key_for_chunks, primary_key,
    ChunkSummary, ColumnSchema,
};
pub use namespace_resolver::{
    Catalog, Error, LookupError, MemCatalog, MemoryNamespaceCache, NamespaceCache, NamespaceId,
    NamespaceSchema, NamespaceSchemaResolver,
};
