//! The introspection facade: the one boundary object callers talk to.
//!
//! A session wraps the state the external parser has decoded — the schema
//! arena, the serializer list, the tick cursor and the entity and table
//! collections — and exposes tick control and read-only snapshot queries
//! over it. Decoding the stream and applying per-tick deltas stay with the
//! parser; the facade validates the state it is given once, then answers
//! every query from it. Absence (no entities yet, no such entity, no such
//! table) is an ordinary "nothing there" result, never an error.

use crate::entity::{
    entity_wf, field_li_views, spec_entity_records, Entity, EntityFieldLi, EntityLi,
};
use crate::fieldvalue::get_field_value_discriminant_name;
use crate::fieldvalue::render_field_value;
use crate::schema::{
    arena_wf, check_arena, check_resolve, check_serializer, get_value_info, serializer_wf,
    FlattenedSerializer, SchemaArena,
};
use crate::stringtable::{
    copy_bytes, item_li_views, spec_table_snapshot, StringTableItemLi, StringTableLi, StringTables,
};
use vstd::prelude::*;

verus! {

/// A caller-facing, recoverable failure. Internal inconsistencies (a path
/// that does not resolve) are not represented here: they are ruled out at
/// construction and by the session's well-formedness from then on.
#[derive(Clone, Copy, PartialEq, Eq, Structural, Debug)]
pub enum IntrospectError {
    /// The handed schema arena breaks a node invariant.
    MalformedSchema,
    /// A serializer's root fields point outside the arena.
    MalformedSerializer,
    /// An entity names a missing serializer or holds an unresolvable path.
    MalformedEntity,
    /// The requested tick cannot be reached from the current position.
    UnreachableTick,
    /// The stream's total tick count is not known.
    UnknownTotalTicks,
}

impl IntrospectError {
    /// A human-readable description of the failure.
    pub fn message(&self) -> (r: &'static str)
        ensures
            r@ == spec_error_message(*self),
    {
        match self {
            IntrospectError::MalformedSchema => "schema arena is malformed",
            IntrospectError::MalformedSerializer => "serializer points outside the schema arena",
            IntrospectError::MalformedEntity => "entity state does not match its schema",
            IntrospectError::UnreachableTick => "target tick is not reachable",
            IntrospectError::UnknownTotalTicks => "total tick count is unknown",
        }
    }
}

pub open spec fn spec_error_message(e: IntrospectError) -> Seq<char> {
    match e {
        IntrospectError::MalformedSchema => "schema arena is malformed"@,
        IntrospectError::MalformedSerializer => "serializer points outside the schema arena"@,
        IntrospectError::MalformedEntity => "entity state does not match its schema"@,
        IntrospectError::UnreachableTick => "target tick is not reachable"@,
        IntrospectError::UnknownTotalTicks => "total tick count is unknown"@,
    }
}

/// The entity collections the parser maintains once entity data has been
/// seen: live entities and per-class baselines, both in the parser's own
/// iteration order.
pub struct EntityList {
    pub entities: Vec<Entity>,
    pub baselines: Vec<Entity>,
}

/// One introspection session over decoded parser state.
pub struct WrappedParser {
    pub arena: SchemaArena,
    pub serializers: Vec<FlattenedSerializer>,
    pub current_tick: i32,
    pub total_tick_count: Option<i32>,
    pub seekable: bool,
    pub entity_state: Option<EntityList>,
    pub table_state: Option<StringTables>,
}

pub open spec fn serializers_wf(sers: Seq<FlattenedSerializer>, arena: SchemaArena) -> bool {
    forall|i: int| 0 <= i < sers.len() ==> serializer_wf(#[trigger] sers[i], arena)
}

pub open spec fn entities_wf(list: Seq<Entity>, arena: SchemaArena, sers: Seq<FlattenedSerializer>) -> bool {
    forall|i: int| 0 <= i < list.len() ==> entity_wf(#[trigger] list[i], arena, sers)
}

/// Whether some entity in `list` carries index `idx`.
pub open spec fn spec_has_entity(list: Seq<Entity>, idx: i32) -> bool {
    exists|i: int| 0 <= i < list.len() && (#[trigger] list[i]).index == idx
}

impl WrappedParser {
    /// Every schema reference in the session stays inside the arena and
    /// every stored field path resolves. Construction establishes this;
    /// queries rely on it.
    pub open spec fn wf(self) -> bool {
        &&& arena_wf(self.arena)
        &&& serializers_wf(self.serializers@, self.arena)
        &&& match self.entity_state {
            Option::None => true,
            Option::Some(st) => entities_wf(st.entities@, self.arena, self.serializers@)
                && entities_wf(st.baselines@, self.arena, self.serializers@),
        }
    }

    /// The same session with its tick cursor moved.
    pub open spec fn with_tick(self, t: i32) -> WrappedParser {
        WrappedParser { current_tick: t, ..self }
    }

    /// Whether `target` can be reached from the current position: the
    /// current tick always (a no-op), otherwise a non-negative tick that
    /// lies forward — or anywhere, when the stream supports seeking —
    /// and not past the known end.
    pub open spec fn tick_reachable(self, target: i32) -> bool {
        ||| target == self.current_tick
        ||| {
            &&& 0 <= target
            &&& (self.seekable || target > self.current_tick)
            &&& match self.total_tick_count {
                Option::Some(t) => target <= t,
                Option::None => true,
            }
        }
    }

    /// Builds a session from state the parser has already decoded,
    /// validating every invariant the queries will rely on. Each way the
    /// state can be malformed yields its own typed error; a valid state
    /// yields the session unchanged.
    pub fn from_state(
        arena: SchemaArena,
        serializers: Vec<FlattenedSerializer>,
        current_tick: i32,
        total_tick_count: Option<i32>,
        seekable: bool,
        entity_state: Option<EntityList>,
        table_state: Option<StringTables>,
    ) -> (r: Result<WrappedParser, IntrospectError>)
        ensures
            !arena_wf(arena) ==> r == Result::<WrappedParser, IntrospectError>::Err(
                IntrospectError::MalformedSchema,
            ),
            arena_wf(arena) && !serializers_wf(serializers@, arena) ==> r == Result::<
                WrappedParser,
                IntrospectError,
            >::Err(IntrospectError::MalformedSerializer),
            arena_wf(arena) && serializers_wf(serializers@, arena) && !entity_state_wf(
                entity_state,
                arena,
                serializers@,
            ) ==> r == Result::<WrappedParser, IntrospectError>::Err(
                IntrospectError::MalformedEntity,
            ),
            arena_wf(arena) && serializers_wf(serializers@, arena) && entity_state_wf(
                entity_state,
                arena,
                serializers@,
            ) ==> (r matches Result::Ok(p) && p == (WrappedParser {
                arena,
                serializers,
                current_tick,
                total_tick_count,
                seekable,
                entity_state,
                table_state,
            })),
            r matches Result::Ok(p) ==> p.wf(),
    {
        if !check_arena(&arena) {
            return Result::Err(IntrospectError::MalformedSchema);
        }
        if !check_serializers(&serializers, &arena) {
            return Result::Err(IntrospectError::MalformedSerializer);
        }
        let entities_ok = match &entity_state {
            Option::None => true,
            Option::Some(st) => check_entities(&st.entities, &arena, &serializers)
                && check_entities(&st.baselines, &arena, &serializers),
        };
        if !entities_ok {
            return Result::Err(IntrospectError::MalformedEntity);
        }
        Result::Ok(
            WrappedParser {
                arena,
                serializers,
                current_tick,
                total_tick_count,
                seekable,
                entity_state,
                table_state,
            },
        )
    }

    /// The tick the parser state currently stands at.
    pub fn tick(&mut self) -> (r: i32)
        ensures
            *final(self) == *old(self),
            r == old(self).current_tick,
    {
        self.current_tick
    }

    /// The stream's total tick count; fails when the stream's length
    /// cannot be determined.
    pub fn total_ticks(&mut self) -> (r: Result<i32, IntrospectError>)
        ensures
            *final(self) == *old(self),
            match old(self).total_tick_count {
                Option::Some(t) => r == Result::<i32, IntrospectError>::Ok(t),
                Option::None => r == Result::<i32, IntrospectError>::Err(
                    IntrospectError::UnknownTotalTicks,
                ),
            },
    {
        match self.total_tick_count {
            Option::Some(t) => Result::Ok(t),
            Option::None => Result::Err(IntrospectError::UnknownTotalTicks),
        }
    }

    /// Moves the tick cursor to `tick`. Asking for the current tick is a
    /// no-op that succeeds; an unreachable target fails and leaves the
    /// session untouched, so the caller may retry with another target.
    /// Replaying the commands up to the new cursor is the parser's work,
    /// not done here.
    pub fn run_to_tick(&mut self, tick: i32) -> (r: Result<(), IntrospectError>)
        ensures
            r is Ok <==> old(self).tick_reachable(tick),
            r is Ok ==> *final(self) == old(self).with_tick(tick),
            r is Err ==> *final(self) == *old(self) && r == Result::<(), IntrospectError>::Err(
                IntrospectError::UnreachableTick,
            ),
            tick == old(self).current_tick ==> r is Ok && *final(self) == *old(self),
    {
        if tick == self.current_tick {
            return Result::Ok(());
        }
        if tick < 0 {
            return Result::Err(IntrospectError::UnreachableTick);
        }
        if !self.seekable && tick < self.current_tick {
            return Result::Err(IntrospectError::UnreachableTick);
        }
        let past_end = match self.total_tick_count {
            Option::Some(t) => tick > t,
            Option::None => false,
        };
        if past_end {
            return Result::Err(IntrospectError::UnreachableTick);
        }
        self.current_tick = tick;
        Result::Ok(())
    }

    /// Turns a list of entities into listing entries: each entity's index
    /// and its serializer's name.
    pub fn collect_entity_list(&self, list: &Vec<Entity>) -> (r: Vec<EntityLi>)
        requires
            forall|i: int|
                0 <= i < list@.len() ==> ((#[trigger] list@[i]).serializer as int)
                    < self.serializers@.len(),
        ensures
            r@.len() == list@.len(),
            forall|i: int|
                0 <= i < list@.len() ==> (#[trigger] r@[i]).index == list@[i].index && r@[i].name@
                    == self.serializers@[list@[i].serializer as int].serializer_name@,
    {
        let mut r: Vec<EntityLi> = Vec::new();
        let mut i: usize = 0;
        while i < list.len()
            invariant
                0 <= i <= list@.len(),
                r@.len() == i,
                forall|k: int|
                    0 <= k < list@.len() ==> ((#[trigger] list@[k]).serializer as int)
                        < self.serializers@.len(),
                forall|k: int|
                    0 <= k < i ==> (#[trigger] r@[k]).index == list@[k].index && r@[k].name@
                        == self.serializers@[list@[k].serializer as int].serializer_name@,
            decreases list@.len() - i,
        {
            let e = &list[i];
            r.push(
                EntityLi {
                    index: e.index,
                    name: self.serializers[e.serializer].serializer_name.clone(),
                },
            );
            i = i + 1;
        }
        r
    }

    /// Lists the live entities, or nothing when the parser has not seen
    /// entity data yet.
    pub fn list_entities(&self) -> (r: Option<Vec<EntityLi>>)
        requires
            self.wf(),
        ensures
            (r is Some) == (self.entity_state is Some),
            match (r, self.entity_state) {
                (Option::Some(v), Option::Some(st)) => v@.len() == st.entities@.len()
                    && forall|i: int|
                    0 <= i < v@.len() ==> (#[trigger] v@[i]).index == st.entities@[i].index
                        && v@[i].name@ == self.serializers@[st.entities@[i].serializer as int].serializer_name@,
                _ => true,
            },
    {
        match &self.entity_state {
            Option::None => Option::None,
            Option::Some(st) => Option::Some(self.collect_entity_list(&st.entities)),
        }
    }

    /// Lists the baseline (class-default) entities, or nothing when the
    /// parser has not seen entity data yet.
    pub fn list_baseline_entities(&self) -> (r: Option<Vec<EntityLi>>)
        requires
            self.wf(),
        ensures
            (r is Some) == (self.entity_state is Some),
            match (r, self.entity_state) {
                (Option::Some(v), Option::Some(st)) => v@.len() == st.baselines@.len()
                    && forall|i: int|
                    0 <= i < v@.len() ==> (#[trigger] v@[i]).index == st.baselines@[i].index
                        && v@[i].name@ == self.serializers@[st.baselines@[i].serializer as int].serializer_name@,
                _ => true,
            },
    {
        match &self.entity_state {
            Option::None => Option::None,
            Option::Some(st) => Option::Some(self.collect_entity_list(&st.baselines)),
        }
    }

    /// Builds one snapshot record per field stored on `entity`: the raw
    /// path, the named path and declared type the schema navigator
    /// resolves, the rendered value and its kind tag. The result is an
    /// independent copy, safe to hold while the entity mutates further.
    pub fn collect_entity_field_list(&self, entity: &Entity) -> (r: Vec<EntityFieldLi>)
        requires
            self.wf(),
            entity_wf(*entity, self.arena, self.serializers@),
        ensures
            field_li_views(r@) == spec_entity_records(
                self.arena,
                self.serializers@[entity.serializer as int],
                entity.fields@,
            ),
    {
        let ser = &self.serializers[entity.serializer];
        let ghost gser = self.serializers@[entity.serializer as int];
        let mut r: Vec<EntityFieldLi> = Vec::new();
        let mut i: usize = 0;
        while i < entity.fields.len()
            invariant
                0 <= i <= entity.fields@.len(),
                self.wf(),
                entity_wf(*entity, self.arena, self.serializers@),
                *ser == gser,
                gser == self.serializers@[entity.serializer as int],
                field_li_views(r@) == spec_entity_records(
                    self.arena,
                    gser,
                    entity.fields@.take(i as int),
                ),
            decreases entity.fields@.len() - i,
        {
            let fp = &entity.fields[i].0;
            let fv = &entity.fields[i].1;
            let (named_path, var_type) = get_value_info(&self.arena, ser, fp);
            let li = EntityFieldLi {
                path: copy_bytes(&fp.segments),
                named_path,
                value: render_field_value(fv),
                encoded_as: var_type,
                decoded_as: String::from_str(get_field_value_discriminant_name(fv)),
            };
            proof {
                assert(crate::entity::field_li_view(li) == crate::entity::spec_field_record(
                    self.arena,
                    gser,
                    entity.fields@[i as int],
                ));
            }
            let ghost prev = r@;
            let ghost gli = li;
            r.push(li);
            i = i + 1;
            proof {
                assert(r@ == prev.push(gli));
                assert(field_li_views(prev) == spec_entity_records(
                    self.arena,
                    gser,
                    entity.fields@.take(i as int - 1),
                ));
                assert(field_li_views(prev).len() == prev.len());
                assert(entity.fields@.take(i as int - 1).len() == i - 1);
                assert(spec_entity_records(self.arena, gser, entity.fields@.take(i as int - 1)).len()
                    == i - 1);
                assert(prev.len() == i - 1);
                assert forall|k: int|
                    0 <= k < i implies field_li_views(r@)[k] == spec_entity_records(
                    self.arena,
                    gser,
                    entity.fields@.take(i as int),
                )[k] by {
                    assert(entity.fields@.take(i as int)[k] == entity.fields@[k]);
                    if k < i - 1 {
                        assert(r@[k] == prev[k]);
                        assert(field_li_views(prev)[k] == crate::entity::spec_field_record(
                            self.arena,
                            gser,
                            entity.fields@.take(i as int - 1)[k],
                        ));
                        assert(entity.fields@.take(i as int - 1)[k] == entity.fields@[k]);
                    } else {
                        assert(r@[k] == gli);
                    }
                }
                assert(field_li_views(r@).len() == i);
                assert(spec_entity_records(self.arena, gser, entity.fields@.take(i as int)).len()
                    == i);
                assert(field_li_views(r@) =~= spec_entity_records(
                    self.arena,
                    gser,
                    entity.fields@.take(i as int),
                ));
            }
        }
        proof {
            assert(entity.fields@.take(entity.fields@.len() as int) =~= entity.fields@);
        }
        r
    }

    /// The field snapshot of the live entity with index `entity_index`,
    /// or nothing when no entity data exists or no entity carries that
    /// index. An entity with no fields yields an empty snapshot, which is
    /// distinct from "no such entity".
    pub fn list_entity_fields(&self, entity_index: i32) -> (r: Option<Vec<EntityFieldLi>>)
        requires
            self.wf(),
        ensures
            match (r, self.entity_state) {
                (Option::None, Option::None) => true,
                (Option::None, Option::Some(st)) => !spec_has_entity(st.entities@, entity_index),
                (Option::Some(recs), Option::Some(st)) => exists|i: int|
                    {
                        &&& 0 <= i < st.entities@.len()
                        &&& (#[trigger] st.entities@[i]).index == entity_index
                        &&& (forall|j: int|
                            0 <= j < i ==> (#[trigger] st.entities@[j]).index != entity_index)
                        &&& field_li_views(recs@) == spec_entity_records(
                            self.arena,
                            self.serializers@[st.entities@[i].serializer as int],
                            st.entities@[i].fields@,
                        )
                    },
                (Option::Some(_), Option::None) => false,
            },
    {
        match &self.entity_state {
            Option::None => Option::None,
            Option::Some(st) => match find_entity(&st.entities, entity_index) {
                Option::None => Option::None,
                Option::Some(e) => Option::Some(self.collect_entity_field_list(e)),
            },
        }
    }

    /// The field snapshot of the baseline entity with index
    /// `entity_index`, or nothing when no entity data exists or no
    /// baseline carries that index.
    pub fn list_baseline_entity_fields(&self, entity_index: i32) -> (r: Option<Vec<EntityFieldLi>>)
        requires
            self.wf(),
        ensures
            match (r, self.entity_state) {
                (Option::None, Option::None) => true,
                (Option::None, Option::Some(st)) => !spec_has_entity(st.baselines@, entity_index),
                (Option::Some(recs), Option::Some(st)) => exists|i: int|
                    {
                        &&& 0 <= i < st.baselines@.len()
                        &&& (#[trigger] st.baselines@[i]).index == entity_index
                        &&& (forall|j: int|
                            0 <= j < i ==> (#[trigger] st.baselines@[j]).index != entity_index)
                        &&& field_li_views(recs@) == spec_entity_records(
                            self.arena,
                            self.serializers@[st.baselines@[i].serializer as int],
                            st.baselines@[i].fields@,
                        )
                    },
                (Option::Some(_), Option::None) => false,
            },
    {
        match &self.entity_state {
            Option::None => Option::None,
            Option::Some(st) => match find_entity(&st.baselines, entity_index) {
                Option::None => Option::None,
                Option::Some(e) => Option::Some(self.collect_entity_field_list(e)),
            },
        }
    }

    /// Lists the string tables by name, or nothing when the parser has
    /// not seen string-table data yet.
    pub fn list_string_tables(&self) -> (r: Option<Vec<StringTableLi>>)
        ensures
            (r is Some) == (self.table_state is Some),
            match (r, self.table_state) {
                (Option::Some(v), Option::Some(ts)) => v@.len() == ts.tables@.len() && forall|i: int|
                    0 <= i < v@.len() ==> (#[trigger] v@[i]).name@ == ts.tables@[i].name@,
                _ => true,
            },
    {
        match &self.table_state {
            Option::None => Option::None,
            Option::Some(ts) => {
                let mut v: Vec<StringTableLi> = Vec::new();
                let mut i: usize = 0;
                while i < ts.tables.len()
                    invariant
                        0 <= i <= ts.tables@.len(),
                        v@.len() == i,
                        forall|k: int|
                            0 <= k < i ==> (#[trigger] v@[k]).name@ == ts.tables@[k].name@,
                    decreases ts.tables@.len() - i,
                {
                    v.push(StringTableLi { name: ts.tables[i].name.clone() });
                    i = i + 1;
                }
                Option::Some(v)
            },
        }
    }

    /// The item snapshot of the string table named `string_table_name`,
    /// or nothing when no string-table data exists or no table carries
    /// that name. Every payload in the result is an independent copy.
    pub fn list_string_table_items(&self, string_table_name: String) -> (r: Option<
        Vec<StringTableItemLi>,
    >)
        ensures
            match (r, self.table_state) {
                (Option::None, Option::None) => true,
                (Option::None, Option::Some(ts)) => forall|i: int|
                    0 <= i < ts.tables@.len() ==> (#[trigger] ts.tables@[i]).name@
                        != string_table_name@,
                (Option::Some(recs), Option::Some(ts)) => exists|i: int|
                    {
                        &&& 0 <= i < ts.tables@.len()
                        &&& (#[trigger] ts.tables@[i]).name@ == string_table_name@
                        &&& (forall|j: int|
                            0 <= j < i ==> (#[trigger] ts.tables@[j]).name@ != string_table_name@)
                        &&& item_li_views(recs@) == spec_table_snapshot(ts.tables@[i].items@)
                    },
                (Option::Some(_), Option::None) => false,
            },
    {
        match &self.table_state {
            Option::None => Option::None,
            Option::Some(ts) => match ts.find_table(&string_table_name) {
                Option::None => Option::None,
                Option::Some(t) => Option::Some(t.snapshot_items()),
            },
        }
    }
}

pub open spec fn entity_state_wf(
    st: Option<EntityList>,
    arena: SchemaArena,
    sers: Seq<FlattenedSerializer>,
) -> bool {
    match st {
        Option::None => true,
        Option::Some(l) => entities_wf(l.entities@, arena, sers) && entities_wf(
            l.baselines@,
            arena,
            sers,
        ),
    }
}

/// Checks every serializer of the list against the arena.
fn check_serializers(sers: &Vec<FlattenedSerializer>, arena: &SchemaArena) -> (r: bool)
    ensures
        r == serializers_wf(sers@, *arena),
{
    let mut i: usize = 0;
    while i < sers.len()
        invariant
            0 <= i <= sers@.len(),
            forall|k: int| 0 <= k < i ==> serializer_wf(#[trigger] sers@[k], *arena),
        decreases sers@.len() - i,
    {
        if !check_serializer(&sers[i], arena) {
            return false;
        }
        i = i + 1;
    }
    true
}

/// Checks one entity: serializer reference in range, every path resolving.
fn check_entity(e: &Entity, arena: &SchemaArena, sers: &Vec<FlattenedSerializer>) -> (r: bool)
    requires
        arena_wf(*arena),
        serializers_wf(sers@, *arena),
    ensures
        r == entity_wf(*e, *arena, sers@),
{
    if e.serializer >= sers.len() {
        return false;
    }
    let ser = &sers[e.serializer];
    let mut i: usize = 0;
    while i < e.fields.len()
        invariant
            0 <= i <= e.fields@.len(),
            arena_wf(*arena),
            serializers_wf(sers@, *arena),
            (e.serializer as int) < sers@.len(),
            *ser == sers@[e.serializer as int],
            forall|j: int|
                0 <= j < i ==> crate::schema::resolve_ok(
                    *arena,
                    sers@[e.serializer as int],
                    (#[trigger] e.fields@[j]).0.segments@,
                ),
        decreases e.fields@.len() - i,
    {
        if !check_resolve(arena, ser, &e.fields[i].0) {
            assert(!crate::schema::resolve_ok(
                *arena,
                sers@[e.serializer as int],
                e.fields@[i as int].0.segments@,
            ));
            return false;
        }
        i = i + 1;
    }
    true
}

/// Checks every entity of a list.
fn check_entities(list: &Vec<Entity>, arena: &SchemaArena, sers: &Vec<FlattenedSerializer>) -> (r:
    bool)
    requires
        arena_wf(*arena),
        serializers_wf(sers@, *arena),
    ensures
        r == entities_wf(list@, *arena, sers@),
{
    let mut i: usize = 0;
    while i < list.len()
        invariant
            0 <= i <= list@.len(),
            arena_wf(*arena),
            serializers_wf(sers@, *arena),
            forall|k: int| 0 <= k < i ==> entity_wf(#[trigger] list@[k], *arena, sers@),
        decreases list@.len() - i,
    {
        if !check_entity(&list[i], arena, sers) {
            return false;
        }
        i = i + 1;
    }
    true
}

/// Finds the first entity of the list carrying index `idx`.
fn find_entity(list: &Vec<Entity>, idx: i32) -> (r: Option<&Entity>)
    ensures
        match r {
            Option::None => !spec_has_entity(list@, idx),
            Option::Some(e) => exists|i: int|
                {
                    &&& 0 <= i < list@.len()
                    &&& *e == list@[i]
                    &&& (#[trigger] list@[i]).index == idx
                    &&& forall|j: int| 0 <= j < i ==> (#[trigger] list@[j]).index != idx
                },
        },
{
    let mut i: usize = 0;
    while i < list.len()
        invariant
            0 <= i <= list@.len(),
            forall|j: int| 0 <= j < i ==> (#[trigger] list@[j]).index != idx,
        decreases list@.len() - i,
    {
        if list[i].index == idx {
            return Option::Some(&list[i]);
        }
        i = i + 1;
    }
    Option::None
}

} // verus!


