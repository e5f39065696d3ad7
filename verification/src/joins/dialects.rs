//! The functions that join planning is handed: two SQL dialects and the making of scans.

use crate::error::UserError;
use crate::handed::{callable, callable_with, computes, computes_with};
use crate::joins::clauses::Renderer;
use crate::joins::planning::ResolvedJoinSide;
use crate::joins::rendering::Rewrite;
use crate::json::{Json, JsonV};
use crate::scan::{ColumnType, FileEntry, FileEntryV, ScanSpec, ScanSpecV, ScanStorage, ScanTuning,
    StorageBackend};
use vstd::prelude::*;

verus! {

/// The dialect of the engine that runs the query over the scans.
pub struct QueryDialect<E, F> {
    /// Renders an expression, or declines it.
    pub expression: E,
    /// Renders a filter, or declines it. A trivially true filter is declined too.
    pub filter: F,
}

/// The functions of a [`QueryDialect`].
pub struct QueryDialectV {
    pub expression: Renderer,
    pub filter: Renderer,
}

impl<E: Fn(&Json) -> Option<String>, F: Fn(&Json) -> Option<String>> QueryDialect<E, F> {
    /// Every function can be called with every tree.
    pub open spec fn ready(self) -> bool {
        callable(self.expression) && callable(self.filter)
    }

    /// The functions compute what the model says.
    pub open spec fn speaks(self, model: QueryDialectV) -> bool {
        computes(self.expression, model.expression) && computes(self.filter, model.filter)
    }
}

/// The dialect in which a scan filters its rows.
pub struct ScanDialect<P, W, L> {
    /// Whether the dialect can express a filter.
    pub renderable: P,
    /// Rewrites a filter for the types of its columns, or declines it.
    pub rewrite: W,
    /// Renders a filter, or declines it.
    pub filter: L,
}

/// The functions of a [`ScanDialect`].
pub struct ScanDialectV {
    pub renderable: spec_fn(JsonV) -> bool,
    pub rewrite: Rewrite,
    pub filter: Renderer,
}

impl<
    P: Fn(&Json) -> bool,
    W: Fn(&Json, &Vec<ColumnType>) -> Option<Json>,
    L: Fn(&Json) -> Option<String>,
> ScanDialect<P, W, L> {
    /// Every function can be called with every tree.
    pub open spec fn ready(self) -> bool {
        callable(self.renderable) && callable_with(self.rewrite) && callable(self.filter)
    }

    /// The functions compute what the model says.
    pub open spec fn speaks(self, model: ScanDialectV) -> bool {
        computes(self.renderable, model.renderable) && computes_with(self.rewrite, model.rewrite)
            && computes(self.filter, model.filter)
    }
}

/// The making of scans.
pub struct ScanBuilder<S, G, D> {
    /// Deals the files of a side out to shards.
    pub shards: S,
    /// Picks how a scan learns of a store.
    pub storage: G,
    /// Writes the query that runs a scan over shards, given the types of its columns and a cap on
    /// the merged rows.
    pub driving_sql: D,
    pub tuning: ScanTuning,
}

/// The functions of a [`ScanBuilder`].
pub struct ScanBuilderV {
    pub shards: spec_fn(ResolvedJoinSide) -> Seq<Seq<FileEntryV>>,
    pub storage: spec_fn(StorageBackend) -> Result<ScanStorage, Seq<char>>,
    pub driving_sql: DrivingSql,
    pub tuning: ScanTuning,
}

/// The query that runs a scan over shards.
pub type DrivingSql = spec_fn(
    ScanSpecV,
    Seq<Seq<FileEntryV>>,
    Seq<Seq<char>>,
    Option<u64>,
) -> Seq<char>;

/// Whatever `f` writes for a scan is what `g` says of it.
pub open spec fn writes_queries<
    D: Fn(&ScanSpec, &Vec<Vec<FileEntry>>, &Vec<String>, Option<u64>) -> String,
>(f: D, g: DrivingSql) -> bool {
    forall|
        spec: &ScanSpec,
        shards: &Vec<Vec<FileEntry>>,
        types: &Vec<String>,
        limit: Option<u64>,
        r: String,
    | #[trigger]
        f.ensures((spec, shards, types, limit), r) ==> r@ == g(
            spec.deep_view(),
            shards.deep_view(),
            types.deep_view(),
            limit,
        )
}

/// `f` can be called for every scan.
pub open spec fn can_write_queries<
    D: Fn(&ScanSpec, &Vec<Vec<FileEntry>>, &Vec<String>, Option<u64>) -> String,
>(f: D) -> bool {
    forall|
        spec: &ScanSpec,
        shards: &Vec<Vec<FileEntry>>,
        types: &Vec<String>,
        limit: Option<u64>,
    | #[trigger]
        f.requires((spec, shards, types, limit))
}

/// Whatever `f` deals out for a side is what `g` says of it.
pub open spec fn deals_files<S: Fn(&ResolvedJoinSide) -> Vec<Vec<FileEntry>>>(
    f: S,
    g: spec_fn(ResolvedJoinSide) -> Seq<Seq<FileEntryV>>,
) -> bool {
    forall|side: &ResolvedJoinSide, r: Vec<Vec<FileEntry>>| #[trigger]
        f.ensures((side,), r) ==> r.deep_view() == g(*side)
}

/// What picking a storage says: the storage, or the message of the error.
pub open spec fn storage_outcome(result: Result<ScanStorage, UserError>) -> Result<
    ScanStorage,
    Seq<char>,
> {
    match result {
        Ok(storage) => Ok(storage),
        Err(error) => Err(error@),
    }
}

/// Whatever `f` picks for a store is what `g` says of it.
pub open spec fn picks_storage<G: Fn(&StorageBackend) -> Result<ScanStorage, UserError>>(
    f: G,
    g: spec_fn(StorageBackend) -> Result<ScanStorage, Seq<char>>,
) -> bool {
    forall|backend: &StorageBackend, r: Result<ScanStorage, UserError>| #[trigger]
        f.ensures((backend,), r) ==> storage_outcome(r) == g(*backend)
}

impl<
    S: Fn(&ResolvedJoinSide) -> Vec<Vec<FileEntry>>,
    G: Fn(&StorageBackend) -> Result<ScanStorage, UserError>,
    D: Fn(&ScanSpec, &Vec<Vec<FileEntry>>, &Vec<String>, Option<u64>) -> String,
> ScanBuilder<S, G, D> {
    /// Every function can be called.
    pub open spec fn ready(self) -> bool {
        callable(self.shards) && callable(self.storage) && can_write_queries(self.driving_sql)
    }

    /// The functions compute what the model says.
    pub open spec fn builds(self, model: ScanBuilderV) -> bool {
        deals_files(self.shards, model.shards) && picks_storage(self.storage, model.storage)
            && writes_queries(self.driving_sql, model.driving_sql) && self.tuning == model.tuning
    }
}

/// Everything that joining scans in the reading engine needs.
pub struct JoinServices<T, E, F, P, W, L, S, G, D> {
    /// Names the Exasol type of a data type.
    pub exasol_type: T,
    pub query: QueryDialect<E, F>,
    pub scan: ScanDialect<P, W, L>,
    pub builder: ScanBuilder<S, G, D>,
}

/// The functions of a [`JoinServices`].
pub struct JoinServicesV {
    pub exasol_type: spec_fn(JsonV) -> Seq<char>,
    pub query: QueryDialectV,
    pub scan: ScanDialectV,
    pub builder: ScanBuilderV,
}

impl<
    T: Fn(&Json) -> String,
    E: Fn(&Json) -> Option<String>,
    F: Fn(&Json) -> Option<String>,
    P: Fn(&Json) -> bool,
    W: Fn(&Json, &Vec<ColumnType>) -> Option<Json>,
    L: Fn(&Json) -> Option<String>,
    S: Fn(&ResolvedJoinSide) -> Vec<Vec<FileEntry>>,
    G: Fn(&StorageBackend) -> Result<ScanStorage, UserError>,
    D: Fn(&ScanSpec, &Vec<Vec<FileEntry>>, &Vec<String>, Option<u64>) -> String,
> JoinServices<T, E, F, P, W, L, S, G, D> {
    /// Every function can be called.
    pub open spec fn ready(self) -> bool {
        callable(self.exasol_type) && self.query.ready() && self.scan.ready()
            && self.builder.ready()
    }

    /// The functions compute what the model says.
    pub open spec fn provides(self, model: JoinServicesV) -> bool {
        computes(self.exasol_type, model.exasol_type) && self.query.speaks(model.query)
            && self.scan.speaks(model.scan) && self.builder.builds(model.builder)
    }
}

} // verus!
