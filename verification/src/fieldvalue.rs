//! Decoded field values: a closed tagged union of exactly nine kinds, with
//! one display-rendering rule per kind.
//!
//! Values are produced by the external bit-level decoder; this layer only
//! inspects the tag and assembles a display form. Because the decoder owns
//! everything float-shaped, float-family payloads (`F32` and the vector and
//! angle kinds) arrive here as the decoder's already-rendered component
//! text; integer, boolean and string payloads arrive as plain values.

use crate::decimal::{dec_rep, dec_rep_signed, i64_to_decimal, u64_to_decimal};
use vstd::prelude::*;

verus! {

/// One decoded field value. The variant set is fixed: matching must be
/// exhaustive, so growing it is a compile-time-visible change everywhere.
#[derive(Debug, Clone, PartialEq, Eq)]
pub enum FieldValue {
    I64(i64),
    U64(u64),
    F32(String),
    Bool(bool),
    Vector2(String, String),
    Vector3(String, String, String),
    Vector4(String, String, String, String),
    QAngle(String, String, String),
    Str(String),
}

/// The display form of a two-component list: `[a, b]`.
pub open spec fn spec_list2(a: Seq<char>, b: Seq<char>) -> Seq<char> {
    seq!['['] + a + seq![',', ' '] + b + seq![']']
}

/// The display form of a three-component list: `[a, b, c]`.
pub open spec fn spec_list3(a: Seq<char>, b: Seq<char>, c: Seq<char>) -> Seq<char> {
    seq!['['] + a + seq![',', ' '] + b + seq![',', ' '] + c + seq![']']
}

/// The display form of a four-component list: `[a, b, c, d]`.
pub open spec fn spec_list4(a: Seq<char>, b: Seq<char>, c: Seq<char>, d: Seq<char>) -> Seq<char> {
    seq!['['] + a + seq![',', ' '] + b + seq![',', ' '] + c + seq![',', ' '] + d + seq![']']
}

/// The display form of a value: decimal for the integer kinds, `true` or
/// `false` for booleans, the payload text itself for the string and float
/// kinds, and a bracketed component list for the vector and angle kinds.
pub open spec fn spec_render(v: FieldValue) -> Seq<char> {
    match v {
        FieldValue::I64(n) => dec_rep_signed(n as int),
        FieldValue::U64(n) => dec_rep(n as nat),
        FieldValue::F32(t) => t@,
        FieldValue::Bool(b) => if b {
            "true"@
        } else {
            "false"@
        },
        FieldValue::Vector2(x, y) => spec_list2(x@, y@),
        FieldValue::Vector3(x, y, z) => spec_list3(x@, y@, z@),
        FieldValue::Vector4(x, y, z, w) => spec_list4(x@, y@, z@, w@),
        FieldValue::QAngle(p, y, r) => spec_list3(p@, y@, r@),
        FieldValue::Str(s) => s@,
    }
}

/// The literal name of a value's tag, one of the nine kinds.
pub open spec fn spec_kind_name(v: FieldValue) -> Seq<char> {
    match v {
        FieldValue::I64(_) => "I64"@,
        FieldValue::U64(_) => "U64"@,
        FieldValue::F32(_) => "F32"@,
        FieldValue::Bool(_) => "Bool"@,
        FieldValue::Vector2(_, _) => "Vector2"@,
        FieldValue::Vector3(_, _, _) => "Vector3"@,
        FieldValue::Vector4(_, _, _, _) => "Vector4"@,
        FieldValue::QAngle(_, _, _) => "QAngle"@,
        FieldValue::Str(_) => "String"@,
    }
}

fn join2(a: &String, b: &String) -> (s: String)
    ensures
        s@ == spec_list2(a@, b@),
{
    proof {
        reveal_strlit("[");
        reveal_strlit(", ");
        reveal_strlit("]");
    }
    let mut s = String::new();
    s.append("[");
    s.append(a.as_str());
    s.append(", ");
    s.append(b.as_str());
    s.append("]");
    proof {
        assert(s@ =~= spec_list2(a@, b@));
    }
    s
}

fn join3(a: &String, b: &String, c: &String) -> (s: String)
    ensures
        s@ == spec_list3(a@, b@, c@),
{
    proof {
        reveal_strlit("[");
        reveal_strlit(", ");
        reveal_strlit("]");
    }
    let mut s = String::new();
    s.append("[");
    s.append(a.as_str());
    s.append(", ");
    s.append(b.as_str());
    s.append(", ");
    s.append(c.as_str());
    s.append("]");
    proof {
        assert(s@ =~= spec_list3(a@, b@, c@));
    }
    s
}

fn join4(a: &String, b: &String, c: &String, d: &String) -> (s: String)
    ensures
        s@ == spec_list4(a@, b@, c@, d@),
{
    proof {
        reveal_strlit("[");
        reveal_strlit(", ");
        reveal_strlit("]");
    }
    let mut s = String::new();
    s.append("[");
    s.append(a.as_str());
    s.append(", ");
    s.append(b.as_str());
    s.append(", ");
    s.append(c.as_str());
    s.append(", ");
    s.append(d.as_str());
    s.append("]");
    proof {
        assert(s@ =~= spec_list4(a@, b@, c@, d@));
    }
    s
}

/// Renders a value to its display string.
pub fn render_field_value(v: &FieldValue) -> (s: String)
    ensures
        s@ == spec_render(*v),
{
    proof {
        reveal_strlit("true");
        reveal_strlit("false");
    }
    match v {
        FieldValue::I64(n) => i64_to_decimal(*n),
        FieldValue::U64(n) => u64_to_decimal(*n),
        FieldValue::F32(t) => t.clone(),
        FieldValue::Bool(b) => {
            if *b {
                String::from_str("true")
            } else {
                String::from_str("false")
            }
        },
        FieldValue::Vector2(x, y) => join2(x, y),
        FieldValue::Vector3(x, y, z) => join3(x, y, z),
        FieldValue::Vector4(x, y, z, w) => join4(x, y, z, w),
        FieldValue::QAngle(p, y, r) => join3(p, y, r),
        FieldValue::Str(s) => s.clone(),
    }
}

/// The literal name of the value's tag.
pub fn get_field_value_discriminant_name(field_value: &FieldValue) -> (r: &'static str)
    ensures
        r@ == spec_kind_name(*field_value),
{
    match field_value {
        FieldValue::I64(_) => "I64",
        FieldValue::U64(_) => "U64",
        FieldValue::F32(_) => "F32",
        FieldValue::Bool(_) => "Bool",
        FieldValue::Vector2(_, _) => "Vector2",
        FieldValue::Vector3(_, _, _) => "Vector3",
        FieldValue::Vector4(_, _, _, _) => "Vector4",
        FieldValue::QAngle(_, _, _) => "QAngle",
        FieldValue::Str(_) => "String",
    }
}

} // verus!
