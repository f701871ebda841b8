//! Schema model and field-path navigation.
//!
//! A parse session owns one arena of schema nodes; serializers and nodes
//! refer to other nodes by arena index, and entities refer to their
//! serializer without duplicating schema data. A field path is an ordered
//! sequence of small integers; whether a segment picks a named child or a
//! dynamic-array element is decided, level by level, by the shape of the
//! node reached so far — the path itself carries no tag.

use crate::decimal::{dec_rep, u8_to_decimal};
use vstd::prelude::*;

verus! {

/// One node of the schema tree: a declared variable name and type, the
/// ordered children (as arena indices), and whether the node denotes a
/// dynamic-length array. A dynamic array's single child (ordinal 0) is the
/// schema of its elements.
pub struct SchemaNode {
    pub var_name: String,
    pub var_type: String,
    pub children: Vec<usize>,
    pub is_dynamic_array: bool,
}

/// The arena that owns every schema node of a session.
pub struct SchemaArena {
    pub nodes: Vec<SchemaNode>,
}

/// A serializer: the named root of one entity class's field tree. Its
/// fields are the root's ordered children, as arena indices.
pub struct FlattenedSerializer {
    pub serializer_name: String,
    pub fields: Vec<usize>,
}

/// A compact numeric address of one field below a serializer root.
pub struct FieldPath {
    pub segments: Vec<u8>,
}

/// A node is well formed when its child references stay inside the arena,
/// a dynamic array has its element schema as first child, and the declared
/// type is non-empty.
pub open spec fn node_wf(node: SchemaNode, n_nodes: int) -> bool {
    &&& forall|i: int| 0 <= i < node.children@.len() ==> (#[trigger] node.children@[i]) < n_nodes
    &&& node.is_dynamic_array ==> node.children@.len() >= 1
    &&& node.var_type@.len() > 0
}

pub open spec fn arena_wf(arena: SchemaArena) -> bool {
    forall|i: int|
        0 <= i < arena.nodes@.len() ==> node_wf(#[trigger] arena.nodes@[i], arena.nodes@.len() as int)
}

pub open spec fn serializer_wf(ser: FlattenedSerializer, arena: SchemaArena) -> bool {
    forall|i: int|
        0 <= i < ser.fields@.len() ==> (#[trigger] ser.fields@[i]) < arena.nodes@.len()
}

/// Whether one more path segment can be consumed at node `cur`.
pub open spec fn step_ok(arena: SchemaArena, cur: int, seg: u8) -> bool {
    if arena.nodes@[cur].is_dynamic_array {
        arena.nodes@[cur].children@.len() >= 1
    } else {
        (seg as int) < arena.nodes@[cur].children@.len()
    }
}

/// The node reached by consuming `seg` at node `cur`: the element schema
/// of a dynamic array, or the child at ordinal `seg` otherwise.
pub open spec fn step_node(arena: SchemaArena, cur: int, seg: u8) -> int {
    if arena.nodes@[cur].is_dynamic_array {
        arena.nodes@[cur].children@[0] as int
    } else {
        arena.nodes@[cur].children@[seg as int] as int
    }
}

/// The named-path segment produced by consuming `seg` at node `cur`: the
/// decimal rendering of `seg` below a dynamic array (it is an element
/// index, not an ordinal), the child's declared name otherwise.
pub open spec fn step_name(arena: SchemaArena, cur: int, seg: u8) -> Seq<char> {
    if arena.nodes@[cur].is_dynamic_array {
        dec_rep(seg as nat)
    } else {
        arena.nodes@[step_node(arena, cur, seg)].var_name@
    }
}

/// Whether the whole remainder `rest` of a path can be consumed from `cur`.
pub open spec fn walk_ok(arena: SchemaArena, cur: int, rest: Seq<u8>) -> bool
    decreases rest.len(),
{
    rest.len() == 0 || (step_ok(arena, cur, rest[0]) && walk_ok(
        arena,
        step_node(arena, cur, rest[0]),
        rest.drop_first(),
    ))
}

/// The named-path segments produced while consuming `rest` from `cur`.
pub open spec fn walk_names(arena: SchemaArena, cur: int, rest: Seq<u8>) -> Seq<Seq<char>>
    decreases rest.len(),
{
    if rest.len() == 0 {
        Seq::empty()
    } else {
        seq![step_name(arena, cur, rest[0])] + walk_names(
            arena,
            step_node(arena, cur, rest[0]),
            rest.drop_first(),
        )
    }
}

/// The node reached after consuming all of `rest` from `cur`.
pub open spec fn walk_end(arena: SchemaArena, cur: int, rest: Seq<u8>) -> int
    decreases rest.len(),
{
    if rest.len() == 0 {
        cur
    } else {
        walk_end(arena, step_node(arena, cur, rest[0]), rest.drop_first())
    }
}

/// The node picked by the path's first segment: always an ordinal child of
/// the serializer root, whatever its shape.
pub open spec fn first_node(arena: SchemaArena, ser: FlattenedSerializer, path: Seq<u8>) -> int {
    ser.fields@[path[0] as int] as int
}

/// Whether `path` resolves against `ser`: it is non-empty, its first
/// segment names a root field, and every further segment finds its child
/// or element schema. A path of a live entity always resolves; failure
/// would mean the parser's data and this schema disagree.
pub open spec fn resolve_ok(arena: SchemaArena, ser: FlattenedSerializer, path: Seq<u8>) -> bool {
    &&& path.len() >= 1
    &&& (path[0] as int) < ser.fields@.len()
    &&& walk_ok(arena, first_node(arena, ser, path), path.drop_first())
}

/// The named path of `path` under `ser`: one segment per path segment.
pub open spec fn resolved_names(arena: SchemaArena, ser: FlattenedSerializer, path: Seq<u8>) -> Seq<
    Seq<char>,
> {
    seq![arena.nodes@[first_node(arena, ser, path)].var_name@] + walk_names(
        arena,
        first_node(arena, ser, path),
        path.drop_first(),
    )
}

/// The node the path ends on.
pub open spec fn final_node(arena: SchemaArena, ser: FlattenedSerializer, path: Seq<u8>) -> int {
    walk_end(arena, first_node(arena, ser, path), path.drop_first())
}

/// The declared type of the field the path ends on.
pub open spec fn resolved_type(arena: SchemaArena, ser: FlattenedSerializer, path: Seq<u8>) -> Seq<
    char,
> {
    arena.nodes@[final_node(arena, ser, path)].var_type@
}

/// The node reached after consuming segments `0..=k` of `path`.
pub open spec fn node_at_depth(
    arena: SchemaArena,
    ser: FlattenedSerializer,
    path: Seq<u8>,
    k: int,
) -> int {
    walk_end(arena, first_node(arena, ser, path), path.drop_first().take(k))
}

/// A walk that consumes its whole remainder visits only nodes inside the
/// arena and ends inside it.
pub proof fn lemma_walk_end_in_bounds(arena: SchemaArena, cur: int, rest: Seq<u8>)
    requires
        arena_wf(arena),
        0 <= cur < arena.nodes@.len(),
        walk_ok(arena, cur, rest),
    ensures
        0 <= walk_end(arena, cur, rest) < arena.nodes@.len(),
    decreases rest.len(),
{
    if rest.len() > 0 {
        assert(node_wf(arena.nodes@[cur], arena.nodes@.len() as int));
        lemma_walk_end_in_bounds(arena, step_node(arena, cur, rest[0]), rest.drop_first());
    }
}

/// A walk produces exactly one named-path segment per path segment.
pub proof fn lemma_walk_names_len(arena: SchemaArena, cur: int, rest: Seq<u8>)
    ensures
        walk_names(arena, cur, rest).len() == rest.len(),
    decreases rest.len(),
{
    if rest.len() > 0 {
        lemma_walk_names_len(arena, step_node(arena, cur, rest[0]), rest.drop_first());
    }
}

/// Resolution is total on valid inputs: the named path has exactly the
/// path's length, and the declared type it reports is never empty.
pub proof fn lemma_resolve_total(arena: SchemaArena, ser: FlattenedSerializer, path: Seq<u8>)
    requires
        arena_wf(arena),
        serializer_wf(ser, arena),
        resolve_ok(arena, ser, path),
    ensures
        resolved_names(arena, ser, path).len() == path.len(),
        resolved_type(arena, ser, path).len() > 0,
{
    lemma_walk_names_len(arena, first_node(arena, ser, path), path.drop_first());
    lemma_walk_end_in_bounds(arena, first_node(arena, ser, path), path.drop_first());
    assert(node_wf(arena.nodes@[final_node(arena, ser, path)], arena.nodes@.len() as int));
}

proof fn lemma_walk_dynamic(arena: SchemaArena, cur: int, rest: Seq<u8>, j: int)
    requires
        0 <= j < rest.len(),
        arena.nodes@[walk_end(arena, cur, rest.take(j))].is_dynamic_array,
    ensures
        walk_names(arena, cur, rest)[j] == dec_rep(rest[j] as nat),
    decreases j,
{
    lemma_walk_names_len(arena, cur, rest);
    if j == 0 {
        assert(rest.take(0) =~= Seq::<u8>::empty());
        assert(walk_end(arena, cur, rest.take(0)) == cur);
        assert(walk_names(arena, cur, rest)[0] == step_name(arena, cur, rest[0]));
    } else {
        let next = step_node(arena, cur, rest[0]);
        assert(rest.take(j)[0] == rest[0]);
        assert(rest.take(j).drop_first() =~= rest.drop_first().take(j - 1));
        assert(walk_end(arena, cur, rest.take(j)) == walk_end(
            arena,
            next,
            rest.drop_first().take(j - 1),
        ));
        lemma_walk_dynamic(arena, next, rest.drop_first(), j - 1);
        lemma_walk_names_len(arena, next, rest.drop_first());
        assert(rest.drop_first()[j - 1] == rest[j]);
        assert(walk_names(arena, cur, rest)[j] == walk_names(arena, next, rest.drop_first())[j
            - 1]);
    }
}

/// Dynamic-array branching: when the node at depth `k` is a dynamic array,
/// the named-path segment at depth `k + 1` is the decimal rendering of the
/// raw path segment there, not a schema-derived name.
pub proof fn lemma_dynamic_array_branching(
    arena: SchemaArena,
    ser: FlattenedSerializer,
    path: Seq<u8>,
    k: int,
)
    requires
        resolve_ok(arena, ser, path),
        0 <= k < path.len() - 1,
        arena.nodes@[node_at_depth(arena, ser, path, k)].is_dynamic_array,
    ensures
        resolved_names(arena, ser, path)[k + 1] == dec_rep(path[k + 1] as nat),
{
    let first = first_node(arena, ser, path);
    let rest = path.drop_first();
    lemma_walk_dynamic(arena, first, rest, k);
    lemma_walk_names_len(arena, first, rest);
    assert(rest[k] == path[k + 1]);
    assert(resolved_names(arena, ser, path)[k + 1] == walk_names(arena, first, rest)[k]);
}

/// Resolves a field path against a serializer: walks the schema from the
/// root field the first segment picks, descending by ordinal child below a
/// composite and into the element schema below a dynamic array. Returns
/// the accumulated named path and the final field's declared type.
pub fn get_value_info(arena: &SchemaArena, serializer: &FlattenedSerializer, fp: &FieldPath) -> (r:
    (Vec<String>, String))
    requires
        arena_wf(*arena),
        serializer_wf(*serializer, *arena),
        resolve_ok(*arena, *serializer, fp.segments@),
    ensures
        r.0@.map_values(|s: String| s@) == resolved_names(*arena, *serializer, fp.segments@),
        r.1@ == resolved_type(*arena, *serializer, fp.segments@),
{
    let ghost whole = fp.segments@;
    let segs = &fp.segments;
    let first: u8 = segs[0];
    let mut cur: usize = serializer.fields[first as usize];
    let mut names: Vec<String> = Vec::new();
    names.push(arena.nodes[cur].var_name.clone());
    proof {
        assert(whole.drop_first() =~= whole.skip(1));
        assert(names@.map_values(|s: String| s@) =~= seq![
            arena.nodes@[first_node(*arena, *serializer, whole)].var_name@,
        ]);
    }
    let mut i: usize = 1;
    while i < segs.len()
        invariant
            1 <= i <= segs.len(),
            segs@ == whole,
            arena_wf(*arena),
            serializer_wf(*serializer, *arena),
            resolve_ok(*arena, *serializer, whole),
            0 <= cur < arena.nodes@.len(),
            walk_ok(*arena, cur as int, whole.skip(i as int)),
            names@.map_values(|s: String| s@) + walk_names(*arena, cur as int, whole.skip(i as int))
                == resolved_names(*arena, *serializer, whole),
            walk_end(*arena, cur as int, whole.skip(i as int)) == final_node(
                *arena,
                *serializer,
                whole,
            ),
        decreases segs@.len() - i,
    {
        let ghost old_names = names@;
        let ghost old_cur = cur as int;
        let ghost rest = whole.skip(i as int);
        let seg: u8 = segs[i];
        proof {
            assert(rest[0] == whole[i as int]);
            assert(rest.drop_first() =~= whole.skip(i as int + 1));
            assert(node_wf(arena.nodes@[cur as int], arena.nodes@.len() as int));
        }
        if arena.nodes[cur].is_dynamic_array {
            cur = arena.nodes[cur].children[0];
            names.push(u8_to_decimal(seg));
        } else {
            cur = arena.nodes[cur].children[seg as usize];
            names.push(arena.nodes[cur].var_name.clone());
        }
        i = i + 1;
        proof {
            assert(cur as int == step_node(*arena, old_cur, seg));
            assert(names@.map_values(|s: String| s@) =~= old_names.map_values(|s: String| s@)
                + seq![step_name(*arena, old_cur, seg)]);
            assert(names@.map_values(|s: String| s@) + walk_names(
                *arena,
                cur as int,
                whole.skip(i as int),
            ) =~= old_names.map_values(|s: String| s@) + walk_names(*arena, old_cur, rest));
        }
    }
    proof {
        assert(whole.skip(i as int) =~= Seq::<u8>::empty());
        assert(names@.map_values(|s: String| s@) + walk_names(
            *arena,
            cur as int,
            whole.skip(i as int),
        ) =~= names@.map_values(|s: String| s@));
    }
    (names, arena.nodes[cur].var_type.clone())
}

/// Checks that every node of the arena is well formed.
pub fn check_arena(arena: &SchemaArena) -> (r: bool)
    ensures
        r == arena_wf(*arena),
{
    let n = arena.nodes.len();
    let mut i: usize = 0;
    while i < n
        invariant
            0 <= i <= n,
            n == arena.nodes@.len(),
            forall|k: int|
                0 <= k < i ==> node_wf(#[trigger] arena.nodes@[k], arena.nodes@.len() as int),
        decreases n - i,
    {
        let node = &arena.nodes[i];
        if node.is_dynamic_array && node.children.len() == 0 {
            assert(!node_wf(arena.nodes@[i as int], arena.nodes@.len() as int));
            return false;
        }
        if node.var_type.as_str().is_empty() {
            assert(!node_wf(arena.nodes@[i as int], arena.nodes@.len() as int));
            return false;
        }
        let mut j: usize = 0;
        while j < node.children.len()
            invariant
                0 <= j <= node.children@.len(),
                n == arena.nodes@.len(),
                i < n,
                *node == arena.nodes@[i as int],
                forall|k: int| 0 <= k < j ==> (#[trigger] node.children@[k]) < n,
            decreases node.children@.len() - j,
        {
            if node.children[j] >= n {
                assert(!node_wf(arena.nodes@[i as int], arena.nodes@.len() as int));
                return false;
            }
            j = j + 1;
        }
        assert(node_wf(arena.nodes@[i as int], arena.nodes@.len() as int));
        i = i + 1;
    }
    true
}

/// Checks that every root field of the serializer lies inside the arena.
pub fn check_serializer(ser: &FlattenedSerializer, arena: &SchemaArena) -> (r: bool)
    ensures
        r == serializer_wf(*ser, *arena),
{
    let n = arena.nodes.len();
    let mut i: usize = 0;
    while i < ser.fields.len()
        invariant
            0 <= i <= ser.fields@.len(),
            n == arena.nodes@.len(),
            forall|k: int| 0 <= k < i ==> (#[trigger] ser.fields@[k]) < n,
        decreases ser.fields@.len() - i,
    {
        if ser.fields[i] >= n {
            return false;
        }
        i = i + 1;
    }
    true
}

/// Checks that a field path resolves against a serializer; a live entity's
/// paths always do, so a `false` here means the handed state is broken.
pub fn check_resolve(arena: &SchemaArena, ser: &FlattenedSerializer, fp: &FieldPath) -> (r: bool)
    requires
        arena_wf(*arena),
        serializer_wf(*ser, *arena),
    ensures
        r == resolve_ok(*arena, *ser, fp.segments@),
{
    let ghost whole = fp.segments@;
    let segs = &fp.segments;
    if segs.len() == 0 {
        return false;
    }
    let first: u8 = segs[0];
    if (first as usize) >= ser.fields.len() {
        return false;
    }
    let mut cur: usize = ser.fields[first as usize];
    proof {
        assert(whole.skip(1).take(0) =~= Seq::<u8>::empty());
        assert(whole.drop_first() =~= whole.skip(1));
    }
    let mut i: usize = 1;
    while i < segs.len()
        invariant
            1 <= i <= segs.len(),
            segs@ == whole,
            fp.segments@ == whole,
            arena_wf(*arena),
            serializer_wf(*ser, *arena),
            whole.len() >= 1,
            (whole[0] as int) < ser.fields@.len(),
            cur as int == walk_end(*arena, first_node(*arena, *ser, whole), whole.skip(1).take(
                i as int - 1,
            )),
            0 <= cur < arena.nodes@.len(),
            resolve_ok(*arena, *ser, whole) <==> walk_ok(*arena, cur as int, whole.skip(i as int)),
        decreases segs@.len() - i,
    {
        let ghost old_cur = cur as int;
        let ghost rest = whole.skip(i as int);
        let seg: u8 = segs[i];
        proof {
            assert(rest[0] == whole[i as int]);
            assert(rest.drop_first() =~= whole.skip(i as int + 1));
            assert(node_wf(arena.nodes@[cur as int], arena.nodes@.len() as int));
        }
        if arena.nodes[cur].is_dynamic_array {
            if arena.nodes[cur].children.len() == 0 {
                assert(!step_ok(*arena, cur as int, seg));
                assert(!walk_ok(*arena, cur as int, rest));
                return false;
            }
            cur = arena.nodes[cur].children[0];
        } else {
            if (seg as usize) >= arena.nodes[cur].children.len() {
                assert(!step_ok(*arena, cur as int, seg));
                assert(!walk_ok(*arena, cur as int, rest));
                return false;
            }
            cur = arena.nodes[cur].children[seg as usize];
        }
        proof {
            assert(cur as int == step_node(*arena, old_cur, seg));
            assert(whole.skip(1).take(i as int)[i - 1] == whole[i as int]);
            assert(whole.skip(1).take(i as int).drop_last() =~= whole.skip(1).take(i as int - 1));
            lemma_walk_end_snoc(*arena, first_node(*arena, *ser, whole), whole.skip(1).take(
                i as int,
            ));
        }
        i = i + 1;
    }
    proof {
        assert(whole.skip(i as int) =~= Seq::<u8>::empty());
    }
    true
}

/// Consuming a non-empty remainder ends where consuming all but its last
/// segment ends, stepped once more by that segment.
proof fn lemma_walk_end_snoc(arena: SchemaArena, cur: int, rest: Seq<u8>)
    requires
        rest.len() >= 1,
    ensures
        walk_end(arena, cur, rest) == step_node(
            arena,
            walk_end(arena, cur, rest.drop_last()),
            rest.last(),
        ),
    decreases rest.len(),
{
    if rest.len() == 1 {
        assert(rest.drop_last() =~= Seq::<u8>::empty());
        assert(rest.drop_first() =~= Seq::<u8>::empty());
        assert(walk_end(arena, step_node(arena, cur, rest[0]), Seq::<u8>::empty()) == step_node(
            arena,
            cur,
            rest[0],
        ));
        assert(walk_end(arena, cur, Seq::<u8>::empty()) == cur);
        assert(rest.last() == rest[0]);
    } else {
        assert(rest.drop_last()[0] == rest[0]);
        assert(rest.drop_first().drop_last() =~= rest.drop_last().drop_first());
        assert(rest.drop_first().last() == rest.last());
        lemma_walk_end_snoc(arena, step_node(arena, cur, rest[0]), rest.drop_first());
    }
}

} // verus!
