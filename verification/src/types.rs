//! The messages of the RPC surface, as plain values.

use vstd::prelude::*;

verus! {

/// A clause that names the entity by its keys, each a run of big-endian
/// bytes.
#[derive(Clone, Debug, PartialEq, Eq)]
pub struct KeysClause {
    pub model: String,
    pub keys: Vec<Vec<u8>>,
}

/// The kinds of clause a query can carry. Only a keys clause can be
/// subscribed to; of the others nothing but the kind is read.
#[derive(Clone, Debug, PartialEq, Eq)]
pub enum ClauseType {
    Keys(KeysClause),
    Attribute,
    Composite,
}

/// The clause of a query; the wire allows it to be empty.
#[derive(Clone, Debug, PartialEq, Eq)]
pub struct Clause {
    pub clause_type: Option<ClauseType>,
}

/// One query of a subscription request: a model by name, and a clause.
#[derive(Clone, Debug, PartialEq, Eq)]
pub struct EntityQuery {
    pub model: String,
    pub clause: Option<Clause>,
}

/// What is read of a query: the model's name, and the keys where its
/// clause is a keys clause.
pub struct EntityQueryView {
    pub model: Seq<char>,
    pub keys: Option<Seq<Seq<u8>>>,
}

/// The stored row of a model; `layout` is hex text.
#[derive(Clone, Debug, PartialEq, Eq)]
pub struct ModelRow {
    pub name: String,
    pub class_hash: String,
    pub packed_size: u32,
    pub unpacked_size: u32,
    pub layout: String,
}

/// The stored row of a world.
#[derive(Clone, Debug, PartialEq, Eq)]
pub struct WorldRow {
    pub world_address: String,
    pub world_class_hash: String,
    pub executor_address: String,
    pub executor_class_hash: String,
}

/// A model as the metadata calls answer it.
#[derive(Clone, Debug, PartialEq, Eq)]
pub struct ModelMetadata {
    pub name: String,
    pub class_hash: String,
    pub packed_size: u32,
    pub unpacked_size: u32,
    pub layout: Vec<u8>,
    pub schema: Vec<u8>,
}

/// A world and its models as the metadata call answers them.
#[derive(Clone, Debug, PartialEq, Eq)]
pub struct WorldMetadata {
    pub world_address: String,
    pub world_class_hash: String,
    pub executor_address: String,
    pub executor_class_hash: String,
    pub models: Vec<ModelMetadata>,
}

/// The answer to the world metadata call.
#[derive(Clone, Debug, PartialEq, Eq)]
pub struct MetadataResponse {
    pub metadata: Option<WorldMetadata>,
}

/// The status codes this service answers with.
#[derive(Clone, Copy, Debug, PartialEq, Eq, Structural)]
pub enum Code {
    NotFound,
    Internal,
}

/// An RPC failure: a code and a text for the client.
#[derive(Clone, Debug, PartialEq, Eq)]
pub struct Status {
    pub code: Code,
    pub message: String,
}

/// Runs of bytes as values.
pub open spec fn byte_runs(runs: Seq<Vec<u8>>) -> Seq<Seq<u8>> {
    runs.map_values(|run: Vec<u8>| run@)
}

impl View for EntityQuery {
    type V = EntityQueryView;

    open spec fn view(&self) -> EntityQueryView {
        EntityQueryView {
            model: self.model@,
            keys: match self.clause {
                Some(Clause { clause_type: Some(ClauseType::Keys(clause)) }) => Some(
                    byte_runs(clause.keys@),
                ),
                _ => None,
            },
        }
    }
}

/// Queries as values.
pub open spec fn queries_view(queries: Seq<EntityQuery>) -> Seq<EntityQueryView> {
    queries.map_values(|q: EntityQuery| q@)
}

} // verus!
