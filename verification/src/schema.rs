//! Schema descriptor builder: turns a structural declaration with its
//! attributes into the normalized descriptor that drives the codec.

use vstd::prelude::*;
use crate::docs::{
    description_of, get_description, get_summary_and_description, long_description_of, summary_of,
};
use crate::rename::{rename_spec, RenameRule, RenameRuleExt, RenameTarget};
use crate::text::str_eq;

verus! {

/// A reference to a field's declared type: a scalar, or one of the
/// declaration's generic parameters by position.
#[derive(Debug, Copy, Clone, PartialEq, Eq, Structural)]
pub enum TypeRef {
    Bool,
    Int,
    Str,
    Var(usize),
}

/// A plain field value as it travels through a generated codec.
#[derive(Debug, Clone, PartialEq)]
pub enum DynValue {
    Bool(bool),
    Int(i64),
    Str(String),
}

/// Copies a field value.
pub fn clone_dyn(v: &DynValue) -> (r: DynValue)
    ensures
        r == *v,
{
    match v {
        DynValue::Bool(b) => DynValue::Bool(*b),
        DynValue::Int(i) => DynValue::Int(*i),
        DynValue::Str(s) => DynValue::Str(s.clone()),
    }
}

/// How a field resolves when its wire name is missing from the input.
#[derive(Debug, Clone, PartialEq)]
pub enum DefaultValue {
    Absent,
    UseTypeDefault,
    Literal(DynValue),
}

impl DefaultValue {
    /// A bare `default` attribute selects the type's own default.
    pub fn from_word() -> (r: Self)
        ensures
            r == DefaultValue::UseTypeDefault,
    {
        DefaultValue::UseTypeDefault
    }

    /// A `default` attribute with a literal selects that value.
    pub fn from_value(value: DynValue) -> (r: Self)
        ensures
            r == DefaultValue::Literal(value),
    {
        DefaultValue::Literal(value)
    }
}

/// The payload of one attribute: a bare flag or a literal value.
#[derive(Debug, Clone, PartialEq)]
pub enum AttrValue {
    Flag,
    Lit(DynValue),
}

/// One raw `key = value` attribute attached to a field.
#[derive(Debug, Clone, PartialEq)]
pub struct RawAttr {
    pub key: String,
    pub value: AttrValue,
}

/// One declared field, before building.
#[derive(Debug)]
pub struct FieldDecl {
    pub ident: String,
    pub ty: TypeRef,
    pub public: bool,
    pub docs: Vec<String>,
    pub attrs: Vec<RawAttr>,
}

/// The shape of the declaration the builder is applied to; only structs
/// carry fields.
#[derive(Debug)]
pub enum DeclShape {
    Struct(Vec<FieldDecl>),
    Enum,
    Union,
    Alias,
}

/// One named, fully bound instantiation of a generic declaration.
#[derive(Debug)]
pub struct ConcreteType {
    pub name: String,
    pub params: Vec<TypeRef>,
}

/// A structural declaration plus its type-level attributes.
#[derive(Debug)]
pub struct StructDecl {
    pub ident: String,
    pub n_params: usize,
    pub docs: Vec<String>,
    pub shape: DeclShape,
    pub internal: bool,
    pub name_attr: Option<String>,
    pub rename_fields: Option<RenameRule>,
    pub concretes: Vec<ConcreteType>,
}

/// One field of a built descriptor.
#[derive(Debug)]
pub struct FieldDescriptor {
    pub ident: String,
    pub ty: TypeRef,
    pub public: bool,
    pub wire_name: String,
    pub default: DefaultValue,
    pub skip: bool,
    pub description: Option<String>,
}

/// The normalized, immutable descriptor built once per declared type.
#[derive(Debug)]
pub struct SchemaDescriptor {
    pub name: String,
    pub summary: Option<String>,
    pub description: Option<String>,
    pub fields: Vec<FieldDescriptor>,
    pub rename_rule: Option<RenameRule>,
    pub n_params: usize,
    pub concretes: Vec<ConcreteType>,
}

/// A build-time failure: the declaration is not a struct, a field (or
/// concrete entry, named likewise) carries an attribute set that cannot be
/// accepted, or a generic declaration names no concrete instantiation.
#[derive(Debug, PartialEq)]
pub enum BuildError {
    UnsupportedShape,
    InvalidFieldAttribute(String),
    GenericWithoutConcretes,
}

/// A type reference with no unbound parameter.
pub open spec fn ground(t: TypeRef) -> bool {
    !(t is Var)
}

/// Whether a literal value has the kind a declared type requires.
pub open spec fn lit_matches(v: DynValue, t: TypeRef) -> bool {
    match (v, t) {
        (DynValue::Bool(_), TypeRef::Bool) => true,
        (DynValue::Int(_), TypeRef::Int) => true,
        (DynValue::Str(_), TypeRef::Str) => true,
        _ => false,
    }
}

/// The view of an optional string.
pub open spec fn opt_view(o: Option<String>) -> Option<Seq<char>> {
    match o {
        Some(s) => Some(s@),
        None => None,
    }
}

/// Whether an optional string reads as an optional character sequence.
pub open spec fn opt_str_matches(o: Option<String>, s: Option<Seq<char>>) -> bool {
    match (o, s) {
        (Some(a), Some(b)) => a@ == b,
        (None, None) => true,
        _ => false,
    }
}

/// Folds a field's attributes from `i` on into the explicit wire name, the
/// default and the skip flag; an unknown key or a wrongly shaped value
/// yields nothing.
pub open spec fn parse_attrs_rec(
    attrs: Seq<RawAttr>,
    i: int,
    name: Option<Seq<char>>,
    default: DefaultValue,
    skip: bool,
) -> Option<(Option<Seq<char>>, DefaultValue, bool)>
    decreases attrs.len() - i,
{
    if i < 0 || i >= attrs.len() {
        Some((name, default, skip))
    } else if attrs[i].key@ == "name"@ {
        match attrs[i].value {
            AttrValue::Lit(DynValue::Str(s)) => parse_attrs_rec(attrs, i + 1, Some(s@), default, skip),
            _ => None,
        }
    } else if attrs[i].key@ == "default"@ {
        match attrs[i].value {
            AttrValue::Flag => parse_attrs_rec(attrs, i + 1, name, DefaultValue::UseTypeDefault, skip),
            AttrValue::Lit(v) => parse_attrs_rec(attrs, i + 1, name, DefaultValue::Literal(v), skip),
        }
    } else if attrs[i].key@ == "skip"@ {
        match attrs[i].value {
            AttrValue::Flag => parse_attrs_rec(attrs, i + 1, name, default, true),
            AttrValue::Lit(DynValue::Bool(b)) => parse_attrs_rec(attrs, i + 1, name, default, b),
            _ => None,
        }
    } else {
        None
    }
}

/// The parsed attribute set of a field.
pub open spec fn parsed_attrs(attrs: Seq<RawAttr>) -> Option<(Option<Seq<char>>, DefaultValue, bool)> {
    parse_attrs_rec(attrs, 0, None, DefaultValue::Absent, false)
}

/// Whether one field's declaration is acceptable: its attributes parse, a
/// generic type reference stays in range, and a literal default has the
/// field's own scalar kind.
pub open spec fn field_ok(fd: FieldDecl, n_params: int) -> bool {
    &&& parsed_attrs(fd.attrs@) is Some
    &&& (match fd.ty {
        TypeRef::Var(k) => (k as int) < n_params,
        _ => true,
    })
    &&& (match parsed_attrs(fd.attrs@) {
        Some(p) => match p.1 {
            DefaultValue::Literal(v) => lit_matches(v, fd.ty),
            _ => true,
        },
        None => true,
    })
}

/// The wire name of a field: the explicit one, else the field identifier
/// under the descriptor's (or the default) field rename rule.
pub open spec fn wire_of(fd: FieldDecl, rr: Option<RenameRule>) -> Seq<char> {
    match parsed_attrs(fd.attrs@) {
        Some(p) => match p.0 {
            Some(n) => n,
            None => rename_spec(rr.effective_rule(RenameTarget::Field), fd.ident@),
        },
        None => rename_spec(rr.effective_rule(RenameTarget::Field), fd.ident@),
    }
}

/// Whether field `j` repeats an earlier field's identifier or wire name.
pub open spec fn dup_before(fields: Seq<FieldDecl>, j: int, rr: Option<RenameRule>) -> bool {
    exists|i: int|
        0 <= i < j && (fields[i].ident@ == fields[j].ident@ || wire_of(fields[i], rr) == wire_of(
            fields[j],
            rr,
        ))
}

/// The identifier of the first offending field from `j` on, if any.
pub open spec fn offender_from(
    fields: Seq<FieldDecl>,
    j: int,
    rr: Option<RenameRule>,
    n_params: int,
) -> Option<Seq<char>>
    decreases fields.len() - j,
{
    if j < 0 || j >= fields.len() {
        None
    } else if !field_ok(fields[j], n_params) || dup_before(fields, j, rr) {
        Some(fields[j].ident@)
    } else {
        offender_from(fields, j + 1, rr, n_params)
    }
}

/// Whether one concrete entry is acceptable: it binds every generic
/// parameter, to ground types.
pub open spec fn concrete_ok(c: ConcreteType, n_params: int) -> bool {
    &&& c.params@.len() == n_params
    &&& forall|k: int| 0 <= k < c.params@.len() ==> ground(#[trigger] c.params@[k])
}

/// Whether concrete entry `k` repeats an earlier entry's name.
pub open spec fn cdup_before(cs: Seq<ConcreteType>, k: int) -> bool {
    exists|i: int| 0 <= i < k && cs[i].name@ == cs[k].name@
}

/// The name of the first offending concrete entry from `k` on, if any.
pub open spec fn concrete_offender_from(cs: Seq<ConcreteType>, k: int, n_params: int) -> Option<
    Seq<char>,
>
    decreases cs.len() - k,
{
    if k < 0 || k >= cs.len() {
        None
    } else if !concrete_ok(cs[k], n_params) || cdup_before(cs, k) {
        Some(cs[k].name@)
    } else {
        concrete_offender_from(cs, k + 1, n_params)
    }
}

/// The first offending field or concrete entry of a declaration, fields
/// first, each scanned in declared order.
pub open spec fn first_offender(decl: StructDecl) -> Option<Seq<char>> {
    match decl.shape {
        DeclShape::Struct(fs) => match offender_from(
            fs@,
            0,
            decl.rename_fields,
            decl.n_params as int,
        ) {
            Some(id) => Some(id),
            None => concrete_offender_from(decl.concretes@, 0, decl.n_params as int),
        },
        _ => None,
    }
}

/// Whether a built field reads back the declared one.
pub open spec fn field_matches(fd: FieldDecl, f: FieldDescriptor, rr: Option<RenameRule>) -> bool {
    &&& f.ident@ == fd.ident@
    &&& f.ty == fd.ty
    &&& f.public == fd.public
    &&& f.wire_name@ == wire_of(fd, rr)
    &&& (match parsed_attrs(fd.attrs@) {
        Some(p) => f.default == p.1 && f.skip == p.2,
        None => true,
    })
    &&& opt_str_matches(f.description, description_of(fd.docs@))
}

/// Whether a built descriptor reads back the declaration.
pub open spec fn desc_matches(decl: StructDecl, fs: Seq<FieldDecl>, desc: SchemaDescriptor) -> bool {
    &&& desc.name@ == (match decl.name_attr {
        Some(n) => n@,
        None => rename_spec(RenameRule::Pascal, decl.ident@),
    })
    &&& opt_str_matches(desc.summary, summary_of(decl.docs@))
    &&& opt_str_matches(desc.description, long_description_of(decl.docs@))
    &&& desc.rename_rule == decl.rename_fields
    &&& desc.n_params == decl.n_params
    &&& desc.fields@.len() == fs.len()
    &&& (forall|i: int|
        0 <= i < fs.len() ==> field_matches(fs[i], #[trigger] desc.fields@[i], decl.rename_fields))
    &&& desc.concretes@.len() == decl.concretes@.len()
    &&& (forall|k: int|
        0 <= k < decl.concretes@.len() ==> (#[trigger] desc.concretes@[k]).name@
            == decl.concretes@[k].name@ && desc.concretes@[k].params@
            == decl.concretes@[k].params@)
}

impl SchemaDescriptor {
    /// The invariant every built descriptor satisfies: wire names are
    /// pairwise distinct, generic references stay in range, literal defaults
    /// have their field's kind, and every concrete entry binds each
    /// parameter to a ground type under a distinct name.
    pub open spec fn wf(&self) -> bool {
        &&& (forall|i: int, j: int|
            0 <= i < j < self.fields@.len() ==> (#[trigger] self.fields@[i]).wire_name@ != (
            #[trigger] self.fields@[j]).wire_name@)
        &&& (forall|i: int|
            0 <= i < self.fields@.len() ==> (match (#[trigger] self.fields@[i]).ty {
                TypeRef::Var(k) => (k as int) < self.n_params as int,
                _ => true,
            }))
        &&& (forall|i: int|
            0 <= i < self.fields@.len() ==> (match (#[trigger] self.fields@[i]).default {
                DefaultValue::Literal(v) => lit_matches(v, self.fields@[i].ty),
                _ => true,
            }))
        &&& (forall|k: int|
            0 <= k < self.concretes@.len() ==> concrete_ok(
                #[trigger] self.concretes@[k],
                self.n_params as int,
            ))
        &&& (forall|k1: int, k2: int|
            0 <= k1 < k2 < self.concretes@.len() ==> (#[trigger] self.concretes@[k1]).name@ != (
            #[trigger] self.concretes@[k2]).name@)
    }
}

/// Parses one field's attribute set.
fn parse_attrs(attrs: &Vec<RawAttr>) -> (r: Option<(Option<String>, DefaultValue, bool)>)
    ensures
        match r {
            Some(p) => parsed_attrs(attrs@) == Some((opt_view(p.0), p.1, p.2)),
            None => parsed_attrs(attrs@) is None,
        },
{
    let mut name: Option<String> = None;
    let mut default = DefaultValue::Absent;
    let mut skip = false;
    let mut i: usize = 0;
    while i < attrs.len()
        invariant
            i <= attrs@.len(),
            parsed_attrs(attrs@) == parse_attrs_rec(
                attrs@,
                i as int,
                opt_view(name),
                default,
                skip,
            ),
        decreases attrs@.len() - i,
    {
        let a = &attrs[i];
        if str_eq(a.key.as_str(), "name") {
            match &a.value {
                AttrValue::Lit(DynValue::Str(s)) => {
                    name = Some(s.clone());
                },
                _ => {
                    return None;
                },
            }
        } else if str_eq(a.key.as_str(), "default") {
            match &a.value {
                AttrValue::Flag => {
                    default = DefaultValue::from_word();
                },
                AttrValue::Lit(v) => {
                    default = DefaultValue::from_value(clone_dyn(v));
                },
            }
        } else if str_eq(a.key.as_str(), "skip") {
            match &a.value {
                AttrValue::Flag => {
                    skip = true;
                },
                AttrValue::Lit(DynValue::Bool(b)) => {
                    skip = *b;
                },
                _ => {
                    return None;
                },
            }
        } else {
            return None;
        }
        i = i + 1;
    }
    Some((name, default, skip))
}

fn lit_kind_matches(v: &DynValue, t: &TypeRef) -> (r: bool)
    ensures
        r == lit_matches(*v, *t),
{
    match (v, t) {
        (DynValue::Bool(_), TypeRef::Bool) => true,
        (DynValue::Int(_), TypeRef::Int) => true,
        (DynValue::Str(_), TypeRef::Str) => true,
        _ => false,
    }
}

fn copy_params(params: &Vec<TypeRef>) -> (r: Vec<TypeRef>)
    ensures
        r@ == params@,
{
    let mut out: Vec<TypeRef> = Vec::new();
    let mut i: usize = 0;
    while i < params.len()
        invariant
            i <= params@.len(),
            out@ == params@.take(i as int),
        decreases params@.len() - i,
    {
        out.push(params[i]);
        i = i + 1;
        proof {
            assert(out@ =~= params@.take(i as int));
        }
    }
    proof {
        assert(params@.take(params@.len() as int) =~= params@);
    }
    out
}

/// Builds the normalized descriptor of a declaration, or reports the first
/// build-time failure: a non-struct shape; then the first field, in declared
/// order, whose attributes cannot be parsed, whose type reference or literal
/// default is unacceptable, or which repeats an earlier identifier or wire
/// name; then the first concrete entry that binds the generic parameters
/// badly or repeats a name; and last a generic declaration without concrete
/// entries.
#[verifier::loop_isolation(false)]
pub fn build_schema(decl: &StructDecl) -> (r: Result<SchemaDescriptor, BuildError>)
    ensures
        match r {
            Ok(desc) => {
                &&& decl.shape is Struct
                &&& first_offender(*decl) is None
                &&& (decl.n_params > 0 ==> decl.concretes@.len() > 0)
                &&& desc_matches(*decl, decl.shape->Struct_0@, desc)
                &&& desc.wf()
            },
            Err(BuildError::UnsupportedShape) => !(decl.shape is Struct),
            Err(BuildError::InvalidFieldAttribute(id)) => decl.shape is Struct && first_offender(
                *decl,
            ) == Some(id@),
            Err(BuildError::GenericWithoutConcretes) => {
                &&& decl.shape is Struct
                &&& first_offender(*decl) is None
                &&& decl.n_params > 0
                &&& decl.concretes@.len() == 0
            },
        },
{
    let fs: &Vec<FieldDecl> = match &decl.shape {
        DeclShape::Struct(fs) => fs,
        _ => {
            return Err(BuildError::UnsupportedShape);
        },
    };
    let ghost rr = decl.rename_fields;
    let ghost np = decl.n_params as int;
    let name: String = match &decl.name_attr {
        Some(n) => n.clone(),
        None => RenameTarget::Type.rename(decl.ident.as_str()),
    };
    let (summary, description) = get_summary_and_description(&decl.docs);
    let mut fields: Vec<FieldDescriptor> = Vec::new();
    let mut j: usize = 0;
    while j < fs.len()
        invariant
            j <= fs@.len(),
            rr == decl.rename_fields,
            np == decl.n_params as int,
            decl.shape is Struct,
            fs@ == decl.shape->Struct_0@,
            offender_from(fs@, 0, rr, np) == offender_from(fs@, j as int, rr, np),
            fields@.len() == j,
            forall|i: int| 0 <= i < j ==> field_matches(fs@[i], #[trigger] fields@[i], rr),
            forall|i1: int, i2: int|
                0 <= i1 < i2 < j ==> (#[trigger] fields@[i1]).wire_name@ != (
                #[trigger] fields@[i2]).wire_name@,
        decreases fs@.len() - j,
    {
        let fd = &fs[j];
        let parsed = match parse_attrs(&fd.attrs) {
            Some(p) => p,
            None => {
                proof {
                    assert(!field_ok(fs@[j as int], np));
                }
                return Err(BuildError::InvalidFieldAttribute(fd.ident.clone()));
            },
        };
        let (nm, default, skip) = parsed;
        let ty_ok: bool = match fd.ty {
            TypeRef::Var(k) => k < decl.n_params,
            _ => true,
        };
        if !ty_ok {
            proof {
                assert(!field_ok(fs@[j as int], np));
            }
            return Err(BuildError::InvalidFieldAttribute(fd.ident.clone()));
        }
        let lit_ok: bool = match &default {
            DefaultValue::Literal(v) => lit_kind_matches(v, &fd.ty),
            _ => true,
        };
        if !lit_ok {
            proof {
                assert(!field_ok(fs@[j as int], np));
            }
            return Err(BuildError::InvalidFieldAttribute(fd.ident.clone()));
        }
        proof {
            assert(field_ok(fs@[j as int], np));
        }
        let wire: String = match &nm {
            Some(n) => n.clone(),
            None => decl.rename_fields.rename(fd.ident.as_str(), RenameTarget::Field),
        };
        proof {
            assert(wire@ == wire_of(fs@[j as int], rr));
        }
        let mut i: usize = 0;
        while i < j
            invariant
                i <= j,
                j < fs@.len(),
                fields@.len() == j,
                rr == decl.rename_fields,
                wire@ == wire_of(fs@[j as int], rr),
                fd.ident@ == fs@[j as int].ident@,
                forall|i0: int|
                    0 <= i0 < j ==> field_matches(fs@[i0], #[trigger] fields@[i0], rr),
                forall|i0: int|
                    0 <= i0 < i ==> (#[trigger] fields@[i0]).ident@ != fd.ident@ && fields@[
                        i0
                    ].wire_name@ != wire@,
            decreases j - i,
        {
            if str_eq(fields[i].ident.as_str(), fd.ident.as_str()) || str_eq(
                fields[i].wire_name.as_str(),
                wire.as_str(),
            ) {
                proof {
                    assert(fields@[i as int].ident@ == fs@[i as int].ident@);
                    assert(fields@[i as int].wire_name@ == wire_of(fs@[i as int], rr));
                    assert(dup_before(fs@, j as int, rr));
                    assert(offender_from(fs@, j as int, rr, np) == Some(fs@[j as int].ident@));
                    assert(first_offender(*decl) == Some(fd.ident@));
                }
                return Err(BuildError::InvalidFieldAttribute(fd.ident.clone()));
            }
            i = i + 1;
        }
        proof {
            assert(!dup_before(fs@, j as int, rr)) by {
                if dup_before(fs@, j as int, rr) {
                    let w = choose|i0: int|
                        0 <= i0 < j && (fs@[i0].ident@ == fs@[j as int].ident@ || wire_of(
                            fs@[i0],
                            rr,
                        ) == wire_of(fs@[j as int], rr));
                    assert(fields@[w].ident@ == fs@[w].ident@);
                    assert(fields@[w].wire_name@ == wire_of(fs@[w], rr));
                }
            }
        }
        let field_description = get_description(&fd.docs);
        let built = FieldDescriptor {
            ident: fd.ident.clone(),
            ty: fd.ty,
            public: fd.public,
            wire_name: wire,
            default,
            skip,
            description: field_description,
        };
        fields.push(built);
        j = j + 1;
        proof {
            assert(field_matches(fs@[j - 1], fields@[j - 1], rr));
        }
    }
    proof {
        assert(offender_from(fs@, 0, rr, np) is None);
    }
    let mut concretes: Vec<ConcreteType> = Vec::new();
    let mut k: usize = 0;
    while k < decl.concretes.len()
        invariant
            k <= decl.concretes@.len(),
            np == decl.n_params as int,
            concrete_offender_from(decl.concretes@, 0, np) == concrete_offender_from(
                decl.concretes@,
                k as int,
                np,
            ),
            concretes@.len() == k,
            forall|k0: int|
                0 <= k0 < k ==> (#[trigger] concretes@[k0]).name@ == decl.concretes@[k0].name@
                    && concretes@[k0].params@ == decl.concretes@[k0].params@,
            forall|k0: int|
                0 <= k0 < k ==> concrete_ok(#[trigger] decl.concretes@[k0], np),
            forall|k1: int, k2: int|
                0 <= k1 < k2 < k ==> (#[trigger] decl.concretes@[k1]).name@ != (
                #[trigger] decl.concretes@[k2]).name@,
        decreases decl.concretes@.len() - k,
    {
        let c = &decl.concretes[k];
        if c.params.len() != decl.n_params {
            proof {
                assert(!concrete_ok(decl.concretes@[k as int], np));
                assert(concrete_offender_from(decl.concretes@, k as int, np) == Some(c.name@));
                assert(first_offender(*decl) == Some(c.name@));
            }
            return Err(BuildError::InvalidFieldAttribute(c.name.clone()));
        }
        let mut pi: usize = 0;
        while pi < c.params.len()
            invariant
                pi <= c.params@.len(),
                c == &decl.concretes@[k as int],
                forall|p0: int| 0 <= p0 < pi ==> ground(#[trigger] c.params@[p0]),
            decreases c.params@.len() - pi,
        {
            let is_var: bool = match c.params[pi] {
                TypeRef::Var(_) => true,
                _ => false,
            };
            if is_var {
                proof {
                    assert(!ground(c.params@[pi as int]));
                    assert(!concrete_ok(decl.concretes@[k as int], np));
                    assert(concrete_offender_from(decl.concretes@, k as int, np) == Some(c.name@));
                    assert(first_offender(*decl) == Some(c.name@));
                }
                return Err(BuildError::InvalidFieldAttribute(c.name.clone()));
            }
            pi = pi + 1;
        }
        let mut i: usize = 0;
        while i < k
            invariant
                i <= k,
                k < decl.concretes@.len(),
                c == &decl.concretes@[k as int],
                concretes@.len() == k,
                forall|k0: int|
                    0 <= k0 < k ==> (#[trigger] concretes@[k0]).name@ == decl.concretes@[k0].name@,
                forall|i0: int|
                    0 <= i0 < i ==> (#[trigger] decl.concretes@[i0]).name@ != c.name@,
            decreases k - i,
        {
            if str_eq(concretes[i].name.as_str(), c.name.as_str()) {
                proof {
                    assert(decl.concretes@[i as int].name@ == c.name@);
                    assert(cdup_before(decl.concretes@, k as int));
                    assert(concrete_offender_from(decl.concretes@, k as int, np) == Some(c.name@));
                    assert(first_offender(*decl) == Some(c.name@));
                }
                return Err(BuildError::InvalidFieldAttribute(c.name.clone()));
            }
            i = i + 1;
        }
        proof {
            assert(concrete_ok(decl.concretes@[k as int], np));
            assert(!cdup_before(decl.concretes@, k as int)) by {
                if cdup_before(decl.concretes@, k as int) {
                    let w = choose|i0: int|
                        0 <= i0 < k && decl.concretes@[i0].name@ == decl.concretes@[k as int].name@;
                    assert(decl.concretes@[w].name@ == c.name@);
                }
            }
        }
        concretes.push(ConcreteType { name: c.name.clone(), params: copy_params(&c.params) });
        k = k + 1;
    }
    if decl.n_params > 0 && concretes.len() == 0 {
        return Err(BuildError::GenericWithoutConcretes);
    }
    let desc = SchemaDescriptor {
        name,
        summary,
        description,
        fields,
        rename_rule: decl.rename_fields,
        n_params: decl.n_params,
        concretes,
    };
    proof {
        assert forall|i: int| 0 <= i < desc.fields@.len() implies (match (
        #[trigger] desc.fields@[i]).ty {
            TypeRef::Var(kk) => (kk as int) < desc.n_params as int,
            _ => true,
        }) && (match desc.fields@[i].default {
            DefaultValue::Literal(v) => lit_matches(v, desc.fields@[i].ty),
            _ => true,
        }) by {
            assert(field_matches(fs@[i], desc.fields@[i], rr));
            assert(field_ok(fs@[i], np)) by {
                if !field_ok(fs@[i], np) {
                    assert(offender_from(fs@, i, rr, np) is Some);
                    lemma_offender_escalates(fs@, 0, i, rr, np);
                }
            }
        }
        assert(desc.wf());
    }
    Ok(desc)
}

/// If no field offends from position `a` on, none offends from any later
/// position `b` on either; so an offender at `b` shows up from `a`.
proof fn lemma_offender_escalates(
    fields: Seq<FieldDecl>,
    a: int,
    b: int,
    rr: Option<RenameRule>,
    n_params: int,
)
    requires
        0 <= a <= b,
        offender_from(fields, a, rr, n_params) is None,
    ensures
        offender_from(fields, b, rr, n_params) is None,
    decreases b - a,
{
    if a < b {
        lemma_offender_escalates(fields, a + 1, b, rr, n_params);
    }
}

} // verus!
