//! Codec generator: for a schema descriptor, the decode and encode pair that
//! turns JSON objects into field values and back, including the named
//! generic instantiations.

use vstd::prelude::*;
use vstd::string::StringExecFns;
use crate::error::{
    build_annotated_message, build_expected_message, expected_message, propagate_message,
};
use crate::json::{jviews_obj, lookup, obj_lookup, render_jval, JVal, JsonValue};
use crate::schema::{clone_dyn, DefaultValue, DynValue, SchemaDescriptor, TypeRef};
use crate::text::str_eq;

verus! {

/// The mathematical reading of a field value.
pub enum DynVal {
    Bool(bool),
    Int(int),
    Str(Seq<char>),
}

impl View for DynValue {
    type V = DynVal;

    open spec fn view(&self) -> DynVal {
        match *self {
            DynValue::Bool(b) => DynVal::Bool(b),
            DynValue::Int(i) => DynVal::Int(i as int),
            DynValue::Str(s) => DynVal::Str(s@),
        }
    }
}

/// The readings of a sequence of field values.
pub open spec fn dyn_views(vs: Seq<DynValue>) -> Seq<DynVal> {
    vs.map_values(|v: DynValue| v@)
}

/// The mathematical reading of a field's default.
pub enum DefaultView {
    Absent,
    UseTypeDefault,
    Literal(DynVal),
}

impl View for DefaultValue {
    type V = DefaultView;

    open spec fn view(&self) -> DefaultView {
        match *self {
            DefaultValue::Absent => DefaultView::Absent,
            DefaultValue::UseTypeDefault => DefaultView::UseTypeDefault,
            DefaultValue::Literal(v) => DefaultView::Literal(v@),
        }
    }
}

/// The reading of one built field: what the codec needs of it.
pub struct FieldView {
    pub ident: Seq<char>,
    pub ty: TypeRef,
    pub wire: Seq<char>,
    pub default: DefaultView,
    pub skip: bool,
}

impl View for crate::schema::FieldDescriptor {
    type V = FieldView;

    open spec fn view(&self) -> FieldView {
        FieldView {
            ident: self.ident@,
            ty: self.ty,
            wire: self.wire_name@,
            default: self.default@,
            skip: self.skip,
        }
    }
}

/// The readings of a descriptor's fields.
pub open spec fn field_views(fs: Seq<crate::schema::FieldDescriptor>) -> Seq<FieldView> {
    fs.map_values(|f: crate::schema::FieldDescriptor| f@)
}

/// A generic type reference resolved against a binding of the parameters.
pub open spec fn bind_ty(t: TypeRef, binding: Seq<TypeRef>) -> TypeRef {
    match t {
        TypeRef::Var(k) => if (k as int) < binding.len() {
            binding[k as int]
        } else {
            t
        },
        _ => t,
    }
}

/// The externally visible name of a scalar type.
pub open spec fn scalar_name(t: TypeRef) -> Seq<char> {
    match t {
        TypeRef::Bool => "boolean"@,
        TypeRef::Int => "integer"@,
        TypeRef::Str => "string"@,
        TypeRef::Var(_) => Seq::<char>::empty(),
    }
}

/// The zero value a skipped or defaulted field takes.
pub open spec fn zero_val(t: TypeRef) -> DynVal {
    match t {
        TypeRef::Bool => DynVal::Bool(false),
        TypeRef::Int => DynVal::Int(0),
        TypeRef::Str => DynVal::Str(Seq::<char>::empty()),
        TypeRef::Var(_) => DynVal::Bool(false),
    }
}

/// Whether a field value has the kind a scalar type requires.
pub open spec fn has_kind(v: DynVal, t: TypeRef) -> bool {
    match (v, t) {
        (DynVal::Bool(_), TypeRef::Bool) => true,
        (DynVal::Int(_), TypeRef::Int) => true,
        (DynVal::Str(_), TypeRef::Str) => true,
        _ => false,
    }
}

/// What decoding a scalar type from a wire value yields, if anything.
pub open spec fn decode_scalar(t: TypeRef, j: JVal) -> Option<DynVal> {
    match (t, j) {
        (TypeRef::Bool, JVal::Bool(b)) => Some(DynVal::Bool(b)),
        (TypeRef::Int, JVal::Int(i)) => Some(DynVal::Int(i)),
        (TypeRef::Str, JVal::Str(s)) => Some(DynVal::Str(s)),
        _ => None,
    }
}

/// The wire form of a field value.
pub open spec fn encode_scalar(v: DynVal) -> JVal {
    match v {
        DynVal::Bool(b) => JVal::Bool(b),
        DynVal::Int(i) => JVal::Int(i),
        DynVal::Str(s) => JVal::Str(s),
    }
}

/// What decoding one field from the input object yields: the zero value for
/// a skipped field; the decoded wire value when the wire name is present;
/// the default when it is missing and one is declared; else the
/// wrong-shape message for the field's own type (a missing field reads as
/// null).
pub open spec fn field_result(
    f: FieldView,
    binding: Seq<TypeRef>,
    entries: Seq<(Seq<char>, JVal)>,
) -> Result<DynVal, Seq<char>> {
    let bt = bind_ty(f.ty, binding);
    if f.skip {
        Ok(zero_val(bt))
    } else {
        match obj_lookup(entries, f.wire) {
            Some(j) => match decode_scalar(bt, j) {
                Some(v) => Ok(v),
                None => Err(expected_message(scalar_name(bt), render_jval(j))),
            },
            None => match f.default {
                DefaultView::UseTypeDefault => Ok(zero_val(bt)),
                DefaultView::Literal(v) => Ok(v),
                DefaultView::Absent => Err(
                    expected_message(scalar_name(bt), render_jval(JVal::Null)),
                ),
            },
        }
    }
}

/// Decodes the fields from `i` on, in declared order, stopping at the first
/// failure; an error carries the failing field's type name and message.
pub open spec fn decode_fields(
    fields: Seq<FieldView>,
    binding: Seq<TypeRef>,
    entries: Seq<(Seq<char>, JVal)>,
    i: int,
) -> Result<Seq<DynVal>, (Seq<char>, Seq<char>)>
    decreases fields.len() - i,
{
    if i < 0 || i >= fields.len() {
        Ok(Seq::<DynVal>::empty())
    } else {
        match field_result(fields[i], binding, entries) {
            Err(m) => Err((scalar_name(bind_ty(fields[i].ty, binding)), m)),
            Ok(v) => match decode_fields(fields, binding, entries, i + 1) {
                Ok(rest) => Ok(seq![v] + rest),
                Err(e) => Err(e),
            },
        }
    }
}

/// What decoding an instance of a descriptor yields: all field values in
/// declared order, or the first field's failure propagated into the outer
/// type name; an input that is no object fails for the outer type itself.
pub open spec fn decode_spec(
    fields: Seq<FieldView>,
    binding: Seq<TypeRef>,
    outer: Seq<char>,
    j: JVal,
) -> Result<Seq<DynVal>, Seq<char>> {
    match j {
        JVal::Obj(entries) => match decode_fields(fields, binding, entries, 0) {
            Ok(vs) => Ok(vs),
            Err(e) => Err(propagate_message(e.1, e.0, outer)),
        },
        _ => Err(expected_message(outer, render_jval(j))),
    }
}

/// The encoded entries of the fields from `i` on, in declared order;
/// skipped fields contribute nothing.
pub open spec fn encode_fields(fields: Seq<FieldView>, vals: Seq<DynVal>, i: int) -> Seq<
    (Seq<char>, JVal),
>
    decreases fields.len() - i,
{
    if i < 0 || i >= fields.len() {
        Seq::<(Seq<char>, JVal)>::empty()
    } else {
        let rest = encode_fields(fields, vals, i + 1);
        if fields[i].skip {
            rest
        } else {
            seq![(fields[i].wire, encode_scalar(vals[i]))] + rest
        }
    }
}

/// What encoding an instance yields: always an object, its entries the
/// non-skipped fields' wire names and encoded values in declared order.
pub open spec fn encode_spec(fields: Seq<FieldView>, vals: Seq<DynVal>) -> JVal {
    JVal::Obj(encode_fields(fields, vals, 0))
}

/// Whether a binding grounds every parameter of a descriptor.
pub open spec fn binding_ok(binding: Seq<TypeRef>, n_params: int) -> bool {
    &&& binding.len() == n_params
    &&& forall|k: int| 0 <= k < binding.len() ==> !((#[trigger] binding[k]) is Var)
}

/// Whether a value sequence is an instance of the fields under a binding.
pub open spec fn instance_ok(
    fields: Seq<FieldView>,
    binding: Seq<TypeRef>,
    vals: Seq<DynVal>,
) -> bool {
    &&& vals.len() == fields.len()
    &&& forall|i: int|
        0 <= i < fields.len() ==> has_kind(#[trigger] vals[i], bind_ty(fields[i].ty, binding))
}

/// Whether the fields' wire names are pairwise distinct.
pub open spec fn wires_distinct(fields: Seq<FieldView>) -> bool {
    forall|a: int, b: int|
        0 <= a < b < fields.len() ==> (#[trigger] fields[a]).wire != (#[trigger] fields[b]).wire
}

/// Decoding a just-encoded scalar gives the value back.
proof fn lemma_scalar_round_trip(v: DynVal, t: TypeRef)
    requires
        has_kind(v, t),
    ensures
        decode_scalar(t, encode_scalar(v)) == Some(v),
{
}

/// Looking a non-skipped field's wire name up in the encoded entries finds
/// that field's encoded value, provided no field is skipped and wire names
/// are distinct.
proof fn lemma_lookup_encoded(fields: Seq<FieldView>, vals: Seq<DynVal>, target: int, j: int)
    requires
        vals.len() == fields.len(),
        0 <= j <= target < fields.len(),
        wires_distinct(fields),
        forall|a: int| 0 <= a < fields.len() ==> !(#[trigger] fields[a]).skip,
    ensures
        obj_lookup(encode_fields(fields, vals, j), fields[target].wire) == Some(
            encode_scalar(vals[target]),
        ),
    decreases target - j,
{
    let entries = encode_fields(fields, vals, j);
    assert(entries == seq![(fields[j].wire, encode_scalar(vals[j]))] + encode_fields(
        fields,
        vals,
        j + 1,
    ));
    assert(entries[0] == (fields[j].wire, encode_scalar(vals[j])));
    if j == target {
    } else {
        assert(fields[j].wire != fields[target].wire);
        assert(entries.drop_first() =~= encode_fields(fields, vals, j + 1));
        lemma_lookup_encoded(fields, vals, target, j + 1);
    }
}

proof fn lemma_decode_encoded(
    fields: Seq<FieldView>,
    binding: Seq<TypeRef>,
    vals: Seq<DynVal>,
    i: int,
)
    requires
        wires_distinct(fields),
        forall|a: int| 0 <= a < fields.len() ==> !(#[trigger] fields[a]).skip,
        instance_ok(fields, binding, vals),
        0 <= i <= fields.len(),
    ensures
        decode_fields(fields, binding, encode_fields(fields, vals, 0), i) == Ok::<
            Seq<DynVal>,
            (Seq<char>, Seq<char>),
        >(vals.skip(i)),
    decreases fields.len() - i,
{
    let entries = encode_fields(fields, vals, 0);
    if i < fields.len() {
        lemma_lookup_encoded(fields, vals, i, 0);
        lemma_scalar_round_trip(vals[i], bind_ty(fields[i].ty, binding));
        assert(field_result(fields[i], binding, entries) == Ok::<DynVal, Seq<char>>(vals[i]));
        lemma_decode_encoded(fields, binding, vals, i + 1);
        assert(seq![vals[i]] + vals.skip(i + 1) =~= vals.skip(i));
    } else {
        assert(vals.skip(i) =~= Seq::<DynVal>::empty());
    }
}

/// Round trip: decoding the encoding of any instance of a descriptor
/// without skipped fields gives the instance back, under any binding that
/// the instance fits and any outer type name.
pub proof fn lemma_round_trip(
    fields: Seq<FieldView>,
    binding: Seq<TypeRef>,
    outer: Seq<char>,
    vals: Seq<DynVal>,
)
    requires
        wires_distinct(fields),
        forall|a: int| 0 <= a < fields.len() ==> !(#[trigger] fields[a]).skip,
        instance_ok(fields, binding, vals),
    ensures
        decode_spec(fields, binding, outer, encode_spec(fields, vals)) == Ok::<
            Seq<DynVal>,
            Seq<char>,
        >(vals),
{
    lemma_decode_encoded(fields, binding, vals, 0);
    assert(vals.skip(0) =~= vals);
}

/// Skip exclusion, encoding side: no entry of an encoded instance carries a
/// skipped field's wire name.
pub proof fn lemma_skip_excluded(fields: Seq<FieldView>, vals: Seq<DynVal>, s: int, j: int)
    requires
        0 <= s < fields.len(),
        fields[s].skip,
        wires_distinct(fields),
        0 <= j <= fields.len(),
    ensures
        forall|k: int|
            0 <= k < encode_fields(fields, vals, j).len() ==> (#[trigger] encode_fields(
                fields,
                vals,
                j,
            )[k]).0 != fields[s].wire,
    decreases fields.len() - j,
{
    if j < fields.len() {
        lemma_skip_excluded(fields, vals, s, j + 1);
        if !fields[j].skip {
            assert(j != s);
            assert(fields[j].wire != fields[s].wire);
            assert forall|k: int|
                0 <= k < encode_fields(fields, vals, j).len() implies (#[trigger] encode_fields(
                fields,
                vals,
                j,
            )[k]).0 != fields[s].wire by {
                if k > 0 {
                    assert(encode_fields(fields, vals, j)[k] == encode_fields(
                        fields,
                        vals,
                        j + 1,
                    )[k - 1]);
                }
            }
        }
    }
}

/// Skip exclusion, decoding side: a skipped field always takes its zero
/// value, whatever the input holds; it can fail no decode.
pub proof fn lemma_skip_indifferent(
    f: FieldView,
    binding: Seq<TypeRef>,
    entries: Seq<(Seq<char>, JVal)>,
)
    requires
        f.skip,
    ensures
        field_result(f, binding, entries) == Ok::<DynVal, Seq<char>>(
            zero_val(bind_ty(f.ty, binding)),
        ),
{
}

/// Skip exclusion, input side: whether a skipped field's wire name is
/// present in the input object, and with what value, never changes what
/// decoding yields.
pub proof fn lemma_skip_wire_irrelevant(
    fields: Seq<FieldView>,
    binding: Seq<TypeRef>,
    outer: Seq<char>,
    entries: Seq<(Seq<char>, JVal)>,
    s: int,
    v: JVal,
)
    requires
        wires_distinct(fields),
        0 <= s < fields.len(),
        fields[s].skip,
    ensures
        decode_spec(fields, binding, outer, JVal::Obj(entries)) == decode_spec(
            fields,
            binding,
            outer,
            JVal::Obj(entries.push((fields[s].wire, v))),
        ),
{
    let p = (fields[s].wire, v);
    let e2 = entries.push(p);
    assert forall|k: int|
        0 <= k < fields.len() implies field_result(#[trigger] fields[k], binding, entries)
        == field_result(fields[k], binding, e2) by {
        if k == s {
        } else {
            assert(fields[k].wire != fields[s].wire);
            lemma_lookup_push(entries, p, fields[k].wire);
        }
    }
    lemma_decode_fields_congruence(fields, binding, entries, e2, 0);
}

proof fn lemma_lookup_push(entries: Seq<(Seq<char>, JVal)>, p: (Seq<char>, JVal), w: Seq<char>)
    ensures
        obj_lookup(entries.push(p), w) == (match obj_lookup(entries, w) {
            Some(v) => Some(v),
            None => if p.0 == w {
                Some(p.1)
            } else {
                None
            },
        }),
    decreases entries.len(),
{
    if entries.len() == 0 {
        assert(entries.push(p)[0] == p);
        assert(entries.push(p).drop_first() =~= entries);
    } else {
        assert(entries.push(p)[0] == entries[0]);
        assert(entries.push(p).drop_first() =~= entries.drop_first().push(p));
        lemma_lookup_push(entries.drop_first(), p, w);
    }
}

proof fn lemma_decode_fields_congruence(
    fields: Seq<FieldView>,
    binding: Seq<TypeRef>,
    e1: Seq<(Seq<char>, JVal)>,
    e2: Seq<(Seq<char>, JVal)>,
    i: int,
)
    requires
        forall|k: int|
            0 <= k < fields.len() ==> field_result(#[trigger] fields[k], binding, e1)
                == field_result(fields[k], binding, e2),
    ensures
        decode_fields(fields, binding, e1, i) == decode_fields(fields, binding, e2, i),
    decreases fields.len() - i,
{
    if 0 <= i < fields.len() {
        lemma_decode_fields_congruence(fields, binding, e1, e2, i + 1);
    }
}

/// Default fallback: decoding an object that misses a field declared with a
/// literal default equals decoding the same object with that field set to
/// the default value explicitly.
pub proof fn lemma_default_fallback(
    fields: Seq<FieldView>,
    binding: Seq<TypeRef>,
    outer: Seq<char>,
    entries: Seq<(Seq<char>, JVal)>,
    t: int,
    v: DynVal,
)
    requires
        wires_distinct(fields),
        0 <= t < fields.len(),
        !fields[t].skip,
        fields[t].default == DefaultView::Literal(v),
        obj_lookup(entries, fields[t].wire) is None,
        has_kind(v, bind_ty(fields[t].ty, binding)),
    ensures
        decode_spec(fields, binding, outer, JVal::Obj(entries)) == decode_spec(
            fields,
            binding,
            outer,
            JVal::Obj(entries.push((fields[t].wire, encode_scalar(v)))),
        ),
{
    let p = (fields[t].wire, encode_scalar(v));
    let e2 = entries.push(p);
    assert forall|k: int|
        0 <= k < fields.len() implies field_result(#[trigger] fields[k], binding, entries)
        == field_result(fields[k], binding, e2) by {
        lemma_lookup_push(entries, p, fields[k].wire);
        if k == t {
            lemma_scalar_round_trip(v, bind_ty(fields[t].ty, binding));
        } else {
            assert(fields[k].wire != fields[t].wire);
        }
    }
    lemma_decode_fields_congruence(fields, binding, entries, e2, 0);
}

proof fn lemma_first_err(
    fields: Seq<FieldView>,
    binding: Seq<TypeRef>,
    entries: Seq<(Seq<char>, JVal)>,
    i: int,
    t: int,
    m: Seq<char>,
)
    requires
        0 <= i <= t < fields.len(),
        forall|k: int|
            0 <= k < t ==> field_result(#[trigger] fields[k], binding, entries) is Ok,
        field_result(fields[t], binding, entries) == Err::<DynVal, Seq<char>>(m),
    ensures
        decode_fields(fields, binding, entries, i) == Err::<Seq<DynVal>, (Seq<char>, Seq<char>)>(
            (scalar_name(bind_ty(fields[t].ty, binding)), m),
        ),
    decreases t - i,
{
    if i < t {
        lemma_first_err(fields, binding, entries, i + 1, t, m);
    }
}

/// Missing-required failure: decoding an object that misses a field with no
/// default and no skip, when every earlier field resolves, fails with the
/// wrong-shape message naming that field's own type, propagated into the
/// outer type name.
pub proof fn lemma_missing_required(
    fields: Seq<FieldView>,
    binding: Seq<TypeRef>,
    outer: Seq<char>,
    entries: Seq<(Seq<char>, JVal)>,
    t: int,
)
    requires
        0 <= t < fields.len(),
        !fields[t].skip,
        fields[t].default == DefaultView::Absent,
        obj_lookup(entries, fields[t].wire) is None,
        forall|k: int|
            0 <= k < t ==> field_result(#[trigger] fields[k], binding, entries) is Ok,
    ensures
        decode_spec(fields, binding, outer, JVal::Obj(entries)) == Err::<Seq<DynVal>, Seq<char>>(
            propagate_message(
                expected_message(
                    scalar_name(bind_ty(fields[t].ty, binding)),
                    render_jval(JVal::Null),
                ),
                scalar_name(bind_ty(fields[t].ty, binding)),
                outer,
            ),
        ),
{
    let m = expected_message(scalar_name(bind_ty(fields[t].ty, binding)), render_jval(JVal::Null));
    assert(field_result(fields[t], binding, entries) == Err::<DynVal, Seq<char>>(m));
    lemma_first_err(fields, binding, entries, 0, t, m);
}

/// Generic instantiation isolation: two concrete entries of one well-formed
/// descriptor carry different externally visible names, and each one's
/// codec round-trips its own instances independently.
pub proof fn lemma_concrete_isolation(
    desc: SchemaDescriptor,
    k1: int,
    k2: int,
    vals1: Seq<DynVal>,
    vals2: Seq<DynVal>,
)
    requires
        desc.wf(),
        0 <= k1 < k2 < desc.concretes@.len(),
        forall|a: int| 0 <= a < desc.fields@.len() ==> !(#[trigger] desc.fields@[a]).skip,
        instance_ok(field_views(desc.fields@), desc.concretes@[k1].params@, vals1),
        instance_ok(field_views(desc.fields@), desc.concretes@[k2].params@, vals2),
        wires_distinct(field_views(desc.fields@)),
    ensures
        desc.concretes@[k1].name@ != desc.concretes@[k2].name@,
        decode_spec(
            field_views(desc.fields@),
            desc.concretes@[k1].params@,
            desc.concretes@[k1].name@,
            encode_spec(field_views(desc.fields@), vals1),
        ) == Ok::<Seq<DynVal>, Seq<char>>(vals1),
        decode_spec(
            field_views(desc.fields@),
            desc.concretes@[k2].params@,
            desc.concretes@[k2].name@,
            encode_spec(field_views(desc.fields@), vals2),
        ) == Ok::<Seq<DynVal>, Seq<char>>(vals2),
{
    let fv = field_views(desc.fields@);
    assert forall|a: int| 0 <= a < fv.len() implies !(#[trigger] fv[a]).skip by {
        assert(fv[a] == desc.fields@[a]@);
    }
    lemma_round_trip(fv, desc.concretes@[k1].params@, desc.concretes@[k1].name@, vals1);
    lemma_round_trip(fv, desc.concretes@[k2].params@, desc.concretes@[k2].name@, vals2);
}

/// A decode failure: the outer type it is tagged for, and the full message.
#[derive(Debug, PartialEq)]
pub struct DecodeError {
    pub expected: String,
    pub message: String,
}

fn bind_exec(t: TypeRef, binding: &Vec<TypeRef>) -> (r: TypeRef)
    ensures
        r == bind_ty(t, binding@),
{
    match t {
        TypeRef::Var(k) => if k < binding.len() {
            binding[k]
        } else {
            t
        },
        _ => t,
    }
}

fn scalar_name_str(t: TypeRef) -> (r: String)
    ensures
        r@ == scalar_name(t),
{
    match t {
        TypeRef::Bool => String::from_str("boolean"),
        TypeRef::Int => String::from_str("integer"),
        TypeRef::Str => String::from_str("string"),
        TypeRef::Var(_) => String::new(),
    }
}

fn zero_exec(t: TypeRef) -> (r: DynValue)
    ensures
        r@ == zero_val(t),
{
    match t {
        TypeRef::Bool => DynValue::Bool(false),
        TypeRef::Int => DynValue::Int(0),
        TypeRef::Str => DynValue::Str(String::new()),
        TypeRef::Var(_) => DynValue::Bool(false),
    }
}

fn decode_scalar_exec(t: TypeRef, j: &JsonValue) -> (r: Option<DynValue>)
    ensures
        match r {
            Some(v) => decode_scalar(t, j@) == Some(v@),
            None => decode_scalar(t, j@) is None,
        },
{
    match (t, j) {
        (TypeRef::Bool, JsonValue::Bool(b)) => Some(DynValue::Bool(*b)),
        (TypeRef::Int, JsonValue::Int(i)) => Some(DynValue::Int(*i)),
        (TypeRef::Str, JsonValue::Str(s)) => Some(DynValue::Str(s.clone())),
        _ => None,
    }
}

fn encode_scalar_exec(v: &DynValue) -> (r: JsonValue)
    ensures
        r@ == encode_scalar(v@),
{
    match v {
        DynValue::Bool(b) => JsonValue::Bool(*b),
        DynValue::Int(i) => JsonValue::Int(*i),
        DynValue::Str(s) => JsonValue::Str(s.clone()),
    }
}

/// Decodes an instance of the fields under a binding, reporting failures
/// for the outer type name.
#[verifier::loop_isolation(false)]
fn decode_with(
    desc: &SchemaDescriptor,
    binding: &Vec<TypeRef>,
    outer: &String,
    input: &JsonValue,
) -> (r: Result<Vec<DynValue>, DecodeError>)
    ensures
        match r {
            Ok(vs) => decode_spec(field_views(desc.fields@), binding@, outer@, input@) == Ok::<
                Seq<DynVal>,
                Seq<char>,
            >(dyn_views(vs@)),
            Err(e) => decode_spec(field_views(desc.fields@), binding@, outer@, input@) == Err::<
                Seq<DynVal>,
                Seq<char>,
            >(e.message@) && e.expected@ == outer@,
        },
{
    let ghost fv = field_views(desc.fields@);
    let entries: &Vec<(String, JsonValue)> = match input {
        JsonValue::Object(es) => es,
        _ => {
            let found = input.render();
            return Err(
                DecodeError {
                    expected: outer.clone(),
                    message: build_expected_message(outer.as_str(), found.as_str()),
                },
            );
        },
    };
    let ghost evs = jviews_obj(entries@, 0);
    proof {
        assert(input@ == JVal::Obj(evs));
    }
    let mut out: Vec<DynValue> = Vec::new();
    let mut j: usize = 0;
    while j < desc.fields.len()
        invariant
            j <= desc.fields@.len(),
            fv.len() == desc.fields@.len(),
            out@.len() == j,
            decode_fields(fv, binding@, evs, 0) == (match decode_fields(
                fv,
                binding@,
                evs,
                j as int,
            ) {
                Ok(rest) => Ok::<Seq<DynVal>, (Seq<char>, Seq<char>)>(dyn_views(out@) + rest),
                Err(e) => Err::<Seq<DynVal>, (Seq<char>, Seq<char>)>(e),
            }),
        decreases desc.fields@.len() - j,
    {
        let f = &desc.fields[j];
        proof {
            assert(fv[j as int] == f@);
        }
        let bt = bind_exec(f.ty, binding);
        let outcome: Result<DynValue, String> = if f.skip {
            Ok(zero_exec(bt))
        } else {
            match lookup(entries, &f.wire_name) {
                Some(jv) => match decode_scalar_exec(bt, jv) {
                    Some(v) => Ok(v),
                    None => {
                        let name = scalar_name_str(bt);
                        let found = jv.render();
                        Err(build_expected_message(name.as_str(), found.as_str()))
                    },
                },
                None => match &f.default {
                    DefaultValue::UseTypeDefault => Ok(zero_exec(bt)),
                    DefaultValue::Literal(v) => Ok(clone_dyn(v)),
                    DefaultValue::Absent => {
                        let name = scalar_name_str(bt);
                        proof {
                            reveal_strlit("null");
                            assert("null"@ =~= render_jval(JVal::Null));
                        }
                        Err(build_expected_message(name.as_str(), "null"))
                    },
                },
            }
        };
        match outcome {
            Ok(v) => {
                let ghost vv = v@;
                let ghost prev_out = out@;
                proof {
                    assert(field_result(fv[j as int], binding@, evs) == Ok::<DynVal, Seq<char>>(
                        vv,
                    ));
                }
                out.push(v);
                j = j + 1;
                proof {
                    assert(dyn_views(out@) =~= dyn_views(prev_out) + seq![vv]);
                    let tail = decode_fields(fv, binding@, evs, j as int);
                    if tail is Ok {
                        let rest = tail->Ok_0;
                        assert(dyn_views(prev_out) + (seq![vv] + rest) =~= dyn_views(out@)
                            + rest);
                    }
                }
            },
            Err(m) => {
                let tag = scalar_name_str(bt);
                proof {
                    assert(field_result(fv[j as int], binding@, evs) == Err::<DynVal, Seq<char>>(
                        m@,
                    ));
                    assert(decode_fields(fv, binding@, evs, j as int) == Err::<
                        Seq<DynVal>,
                        (Seq<char>, Seq<char>),
                    >((tag@, m@)));
                }
                let message = if str_eq(tag.as_str(), outer.as_str()) {
                    m
                } else {
                    build_annotated_message(m, outer.as_str())
                };
                return Err(DecodeError { expected: outer.clone(), message });
            },
        }
    }
    proof {
        assert(decode_fields(fv, binding@, evs, fv.len() as int) == Ok::<
            Seq<DynVal>,
            (Seq<char>, Seq<char>),
        >(Seq::<DynVal>::empty()));
        assert(dyn_views(out@) + Seq::<DynVal>::empty() =~= dyn_views(out@));
    }
    Ok(out)
}

impl SchemaDescriptor {
    /// Decodes an instance of a non-generic descriptor from a JSON value.
    pub fn decode_instance(&self, input: &JsonValue) -> (r: Result<Vec<DynValue>, DecodeError>)
        requires
            self.n_params == 0,
        ensures
            match r {
                Ok(vs) => decode_spec(field_views(self.fields@), Seq::<TypeRef>::empty(), self.name@, input@)
                    == Ok::<Seq<DynVal>, Seq<char>>(dyn_views(vs@)),
                Err(e) => decode_spec(field_views(self.fields@), Seq::<TypeRef>::empty(), self.name@, input@)
                    == Err::<Seq<DynVal>, Seq<char>>(e.message@) && e.expected@ == self.name@,
            },
    {
        let binding: Vec<TypeRef> = Vec::new();
        decode_with(self, &binding, &self.name, input)
    }

    /// Decodes an instance of concrete entry `k`, under that entry's
    /// parameter binding and externally visible name.
    pub fn decode_concrete(&self, k: usize, input: &JsonValue) -> (r: Result<
        Vec<DynValue>,
        DecodeError,
    >)
        requires
            k < self.concretes@.len(),
        ensures
            match r {
                Ok(vs) => decode_spec(
                    field_views(self.fields@),
                    self.concretes@[k as int].params@,
                    self.concretes@[k as int].name@,
                    input@,
                ) == Ok::<Seq<DynVal>, Seq<char>>(dyn_views(vs@)),
                Err(e) => decode_spec(
                    field_views(self.fields@),
                    self.concretes@[k as int].params@,
                    self.concretes@[k as int].name@,
                    input@,
                ) == Err::<Seq<DynVal>, Seq<char>>(e.message@) && e.expected@ == self.concretes@[k as int].name@,
            },
    {
        let c = &self.concretes[k];
        decode_with(self, &c.params, &c.name, input)
    }

    /// Encodes an instance of the descriptor: an object holding the
    /// non-skipped fields' wire names and values in declared order.
    #[verifier::loop_isolation(false)]
    pub fn encode_instance(&self, vals: &Vec<DynValue>) -> (r: JsonValue)
        requires
            vals@.len() == self.fields@.len(),
        ensures
            r@ == encode_spec(field_views(self.fields@), dyn_views(vals@)),
    {
        let ghost fv = field_views(self.fields@);
        let ghost dvs = dyn_views(vals@);
        let mut entries: Vec<(String, JsonValue)> = Vec::new();
        let mut j: usize = 0;
        while j < self.fields.len()
            invariant
                j <= self.fields@.len(),
                encode_fields(fv, dvs, 0) == jviews_obj(entries@, 0) + encode_fields(
                    fv,
                    dvs,
                    j as int,
                ),
            decreases self.fields@.len() - j,
        {
            let ghost prev = entries@;
            let f = &self.fields[j];
            proof {
                assert(fv[j as int] == f@);
                assert(dvs[j as int] == vals@[j as int]@);
            }
            if !f.skip {
                let w = f.wire_name.clone();
                let jv = encode_scalar_exec(&vals[j]);
                let ghost pair = (w, jv);
                entries.push((w, jv));
                proof {
                    crate::json::lemma_jviews_obj_push(prev, pair, 0);
                    assert(jviews_obj(entries@, 0) == jviews_obj(prev, 0) + seq![
                        (fv[j as int].wire, encode_scalar(dvs[j as int])),
                    ]);
                    assert(jviews_obj(prev, 0) + (seq![
                        (fv[j as int].wire, encode_scalar(dvs[j as int])),
                    ] + encode_fields(fv, dvs, j as int + 1)) =~= jviews_obj(entries@, 0)
                        + encode_fields(fv, dvs, j as int + 1));
                }
            }
            j = j + 1;
        }
        proof {
            assert(jviews_obj(entries@, 0) + encode_fields(fv, dvs, fv.len() as int) =~= jviews_obj(
                entries@,
                0,
            ));
        }
        JsonValue::Object(entries)
    }
}

} // verus!
