//! Entities and the records an entity snapshot is made of.
//!
//! An entity is an indexed game object: a reference to its serializer (by
//! position in the session's serializer list) and the last known value of
//! every field that has ever been set on it, keyed by field path. The
//! parser owns and mutates entities; this layer only reads them.

use crate::fieldvalue::{spec_kind_name, spec_render, FieldValue};
use crate::schema::{resolve_ok, resolved_names, resolved_type, FieldPath, FlattenedSerializer, SchemaArena};
use vstd::prelude::*;

verus! {

/// One live or baseline entity, as handed over by the parser.
pub struct Entity {
    pub index: i32,
    pub serializer: usize,
    pub fields: Vec<(FieldPath, FieldValue)>,
}

/// An entity's entry in an entity listing: its index and the name of its
/// serializer (its class).
#[derive(Debug, PartialEq, Eq)]
pub struct EntityLi {
    pub index: i32,
    pub name: String,
}

/// One field record of an entity snapshot: the raw numeric path, the
/// resolved named path, the rendered value, the declared type the field
/// was encoded as, and the tag name of the kind it decoded to.
#[derive(Debug, PartialEq, Eq)]
pub struct EntityFieldLi {
    pub path: Vec<u8>,
    pub named_path: Vec<String>,
    pub value: String,
    pub encoded_as: String,
    pub decoded_as: String,
}

/// The mathematical content of one field record.
pub struct FieldRecordView {
    pub path: Seq<u8>,
    pub named_path: Seq<Seq<char>>,
    pub value: Seq<char>,
    pub encoded_as: Seq<char>,
    pub decoded_as: Seq<char>,
}

pub open spec fn field_li_view(r: EntityFieldLi) -> FieldRecordView {
    FieldRecordView {
        path: r.path@,
        named_path: r.named_path@.map_values(|s: String| s@),
        value: r.value@,
        encoded_as: r.encoded_as@,
        decoded_as: r.decoded_as@,
    }
}

/// The mathematical content of a whole record list.
pub open spec fn field_li_views(rs: Seq<EntityFieldLi>) -> Seq<FieldRecordView> {
    rs.map_values(|r: EntityFieldLi| field_li_view(r))
}

/// The record one stored field turns into: its named path and declared
/// type come from resolving the path under `ser`, its value text and kind
/// name from the stored value alone.
pub open spec fn spec_field_record(
    arena: SchemaArena,
    ser: FlattenedSerializer,
    entry: (FieldPath, FieldValue),
) -> FieldRecordView {
    FieldRecordView {
        path: entry.0.segments@,
        named_path: resolved_names(arena, ser, entry.0.segments@),
        value: spec_render(entry.1),
        encoded_as: resolved_type(arena, ser, entry.0.segments@),
        decoded_as: spec_kind_name(entry.1),
    }
}

/// What a snapshot of an entity holds: one record per stored field, in
/// the entity's own field order.
pub open spec fn spec_entity_records(
    arena: SchemaArena,
    ser: FlattenedSerializer,
    entries: Seq<(FieldPath, FieldValue)>,
) -> Seq<FieldRecordView> {
    entries.map_values(|entry: (FieldPath, FieldValue)| spec_field_record(arena, ser, entry))
}

/// An entity is well formed against a session when its serializer
/// reference is in range and every stored field path resolves under that
/// serializer. A path that does not resolve would mean the parser's data
/// and the schema disagree.
pub open spec fn entity_wf(e: Entity, arena: SchemaArena, sers: Seq<FlattenedSerializer>) -> bool {
    &&& (e.serializer as int) < sers.len()
    &&& forall|j: int|
        0 <= j < e.fields@.len() ==> resolve_ok(
            arena,
            sers[e.serializer as int],
            (#[trigger] e.fields@[j]).0.segments@,
        )
}

/// Idempotence of entity snapshots: two snapshots of the same, unmodified
/// entity are structurally identical — both are the one record sequence
/// its fields determine.
pub proof fn lemma_entity_snapshot_idempotent(
    arena: SchemaArena,
    ser: FlattenedSerializer,
    entries: Seq<(FieldPath, FieldValue)>,
    first: Seq<FieldRecordView>,
    second: Seq<FieldRecordView>,
)
    requires
        first == spec_entity_records(arena, ser, entries),
        second == spec_entity_records(arena, ser, entries),
    ensures
        first == second,
{
}

} // verus!
