use vstd::prelude::*;
use vstd::string::*;

use crate::data::CompactionJob;

verus! {

/// Supplies the partitions that are currently eligible for compaction.
pub trait PartitionsSource {
    /// The jobs that a fetch returns, in the source's order.
    spec fn jobs(&self) -> Seq<CompactionJob>;

    /// The source's name, as shown in descriptions.
    spec fn name(&self) -> Seq<char>;

    fn fetch(&self) -> (r: Vec<CompactionJob>)
        ensures
            r@ == self.jobs(),
    ;

    fn describe(&self) -> (r: String)
        ensures
            r@ == self.name(),
    ;
}

/// A source that always returns the same fixed list of jobs.
#[derive(Debug)]
pub struct MockPartitionsSource {
    partitions: Vec<CompactionJob>,
}

impl MockPartitionsSource {
    pub fn new(partitions: Vec<CompactionJob>) -> (r: MockPartitionsSource)
        ensures
            r.jobs() == partitions@,
    {
        MockPartitionsSource { partitions }
    }
}

impl PartitionsSource for MockPartitionsSource {
    closed spec fn jobs(&self) -> Seq<CompactionJob> {
        self.partitions@
    }

    open spec fn name(&self) -> Seq<char> {
        "mock"@
    }

    fn fetch(&self) -> (r: Vec<CompactionJob>) {
        self.partitions.clone()
    }

    fn describe(&self) -> (r: String) {
        String::from_str("mock")
    }
}

/// Hands out, on each call, one fresh traversal of what its source fetches.
#[derive(Debug)]
pub struct OncePartititionStream<T: PartitionsSource> {
    source: T,
}

impl<T: PartitionsSource> OncePartititionStream<T> {
    /// The jobs of one traversal.
    pub closed spec fn jobs(&self) -> Seq<CompactionJob> {
        self.source.jobs()
    }

    /// The name of the underlying source.
    pub closed spec fn source_name(&self) -> Seq<char> {
        self.source.name()
    }

    pub fn new(source: T) -> (r: OncePartititionStream<T>)
        ensures
            r.jobs() == source.jobs(),
            r.source_name() == source.name(),
    {
        OncePartititionStream { source }
    }

    /// The jobs in the order the source gives them: nothing is reordered,
    /// removed or repeated. The stream keeps no cursor, so every call yields
    /// the same jobs.
    pub fn stream(&self) -> (r: Vec<CompactionJob>)
        ensures
            r@ == self.jobs(),
    {
        self.source.fetch()
    }

    /// A description of the stream: `once(<source>)`.
    pub fn to_string(&self) -> (r: String)
        ensures
            r@ == "once("@ + self.source_name() + ")"@,
    {
        let name = self.source.describe();
        let mut r = String::from_str("once(");
        r.append(name.as_str());
        r.append(")");
        r
    }
}

} // verus!
