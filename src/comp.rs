use vstd::prelude::*;
use crate::bitfield::{codegen_bitfield_unit, unit_field_text, unit_methods_text, unit_well_formed, views, BitfieldUnit};
use crate::enums::lines;
use crate::ir::{TypeCtx, TypeKind};
use crate::result::CodegenResult;
use crate::tokens::tokens_of;
use crate::layout::{
    after_padding_field, align_filler, blob, blob_text, padding_field_text, pad_field_spec, saw_aligned_spec,
    saw_bitfield_unit_spec, saw_vtable_spec, tail_padding, Layout, StructLayoutTracker, POINTER_SIZE,
};
use crate::text::{dec, push_decimal};
use crate::types::{implicit_params_text, join, join_strings, render_or_opaque};

verus! {

/// Which getters a data member gets.
#[derive(Clone, Copy, Debug, PartialEq, Eq, Structural)]
pub enum FieldAccessorKind {
    /// No getter.
    NoAccessor,
    /// `get_x` and `get_x_mut`.
    Regular,
    /// `get_x` and `get_x_mut`, both `unsafe`.
    Unsafe,
    /// `get_x` only.
    Immutable,
}

/// A data member of a composite. `private` and `accessor` override the
/// composite's own settings when given.
#[derive(Debug)]
pub struct DataField {
    pub name: Option<String>,
    pub ty: usize,
    pub offset_bits: Option<u64>,
    pub private: Option<bool>,
    pub accessor: Option<FieldAccessorKind>,
}

#[derive(Debug)]
pub enum FieldDecl {
    Data(DataField),
    Bitfields(BitfieldUnit),
}

/// A base class.
#[derive(Debug)]
pub struct BaseDecl {
    pub ty: usize,
    pub is_virtual: bool,
    pub has_vtable: bool,
}

/// The answers of derive analysis for a composite.
#[derive(Debug)]
pub struct DeriveCaps {
    pub debug: bool,
    pub default: bool,
    pub copy: bool,
    pub hash: bool,
    pub partialeq: bool,
    pub eq: bool,
}

/// The configuration that composite emission reads.
#[derive(Debug)]
pub struct CompOptions {
    pub derive_copy: bool,
    pub derive_default: bool,
    /// Whether `Debug` is asked for, and written by hand where it cannot be
    /// derived.
    pub derive_debug: bool,
    pub impl_debug: bool,
    pub layout_tests: bool,
    pub const_fn: bool,
    pub namespaces: bool,
}

/// A struct, class or union.
#[derive(Debug)]
pub struct CompDecl {
    pub name: String,
    pub is_union: bool,
    pub packed: bool,
    pub layout: Option<Layout>,
    pub is_opaque: bool,
    /// A polymorphic class with no base that already has a vtable pointer.
    pub needs_explicit_vtable: bool,
    pub bases: Vec<BaseDecl>,
    pub fields: Vec<FieldDecl>,
    /// The names of the composite's own methods.
    pub method_names: Vec<String>,
    /// The names of the template parameters the composite uses.
    pub template_params: Vec<String>,
    pub has_non_type_template_params: bool,
    pub is_forward_declaration: bool,
    /// No vtable, no fields, and only zero-sized bases.
    pub is_unsized: bool,
    /// A union whose members can all live in a language union.
    pub can_be_rust_union: bool,
    pub comment: Option<String>,
    pub derives: DeriveCaps,
    /// Whether data members are private unless they say otherwise.
    pub private_fields: bool,
    /// The getters data members get unless they say otherwise.
    pub accessor_kind: FieldAccessorKind,
}

/// What the fields of a composite have produced so far.
pub struct FieldsState {
    pub tracker: StructLayoutTracker,
    pub anon: nat,
    pub fields: Seq<Seq<char>>,
    pub methods: Seq<Seq<char>>,
    pub incomplete_array: bool,
}

/// The element of an array of length zero: a trailing flexible array.
pub open spec fn incomplete_elem(ctx: TypeCtx, ty: int) -> Option<usize> {
    if 0 <= ty < ctx.len() {
        match ctx.ty(ty).kind {
            TypeKind::Array(e, n) => if n == 0 { Some(e) } else { None },
            _ => None,
        }
    } else {
        None
    }
}

/// The type of a data member: wrapped in the union-field helper inside a
/// union that is not a language union, in the flexible-array helper for a
/// trailing flexible array, else the member's type with its implicit
/// template parameters.
pub open spec fn field_type_text(ctx: TypeCtx, opts: CompOptions, c: CompDecl, f: DataField) -> Seq<char> {
    let root: Seq<char> = if opts.namespaces { "root::"@ } else { Seq::empty() };
    if c.is_union && !c.can_be_rust_union {
        root + "__BindgenUnionField<"@ + render_or_opaque(ctx, f.ty as int) + ">"@
    } else {
        match incomplete_elem(ctx, f.ty as int) {
            Some(e) => root + "__IncompleteArrayField<"@ + render_or_opaque(ctx, e as int) + ">"@,
            None => render_or_opaque(ctx, f.ty as int) + implicit_params_text(ctx, f.ty as int),
        }
    }
}

/// One field handled.
#[verifier::opaque]
pub open spec fn field_step(ctx: TypeCtx, opts: CompOptions, c: CompDecl, s: FieldsState, fd: FieldDecl) -> FieldsState {
    match fd {
        FieldDecl::Data(f) => {
            let (name, anon) = match f.name {
                Some(n) => (n@, s.anon),
                None => ("__bindgen_anon_"@ + dec(s.anon + 1), s.anon + 1),
            };
            let incomplete = s.incomplete_array || (!(c.is_union && !c.can_be_rust_union)
                && incomplete_elem(ctx, f.ty as int) is Some);
            let fl = if 0 <= f.ty < ctx.len() { ctx.ty(f.ty as int).layout } else { None };
            let (tracker, fields) = if c.is_union {
                (s.tracker, s.fields)
            } else {
                match fl {
                    Some(l) => {
                        let (t2, pad) = pad_field_spec(s.tracker, l, f.offset_bits);
                        (t2, match pad {
                            Some(pl) => s.fields.push(padding_field_text(s.tracker.padding_count, pl)),
                            None => s.fields,
                        })
                    },
                    None => (s.tracker, s.fields),
                }
            };
            let private = match f.private {
                Some(p) => p,
                None => c.private_fields,
            };
            let kind = match f.accessor {
                Some(k) => k,
                None => c.accessor_kind,
            };
            let ty = field_type_text(ctx, opts, c, f);
            FieldsState {
                tracker,
                anon,
                fields: fields.push((if private { Seq::empty() } else { "pub "@ }) + name + ": "@ + ty + ","@),
                methods: match accessor_text(kind, name, ty) {
                    Some(a) => s.methods.push(a),
                    None => s.methods,
                },
                incomplete_array: incomplete,
            }
        },
        FieldDecl::Bitfields(u) => FieldsState {
            tracker: saw_bitfield_unit_spec(s.tracker, u.layout),
            fields: s.fields.push(unit_field_text(u)),
            methods: s.methods + unit_methods_text(c.method_names@, u, opts.const_fn),
            ..s
        },
    }
}

/// The state after the first `k` fields.
pub open spec fn fields_run(ctx: TypeCtx, opts: CompOptions, c: CompDecl, start: FieldsState, k: int) -> FieldsState
    decreases k,
{
    if k <= 0 {
        start
    } else {
        field_step(ctx, opts, c, fields_run(ctx, opts, c, start, k - 1), c.fields@[k - 1])
    }
}


/// A base that takes no room in the derived record.
pub open spec fn base_is_unsized(ctx: TypeCtx, b: BaseDecl) -> bool {
    !(0 <= b.ty < ctx.len()) || match ctx.ty(b.ty as int).layout {
        Some(l) => l.size == 0,
        None => true,
    }
}

/// `_base` for the first base, `_base_N` for the others.
pub open spec fn base_field_name(i: nat) -> Seq<char> {
    if i == 0 { "_base"@ } else { "_base_"@ + dec(i) }
}

/// One base handled: a virtual or zero-sized base adds no field.
pub open spec fn base_step(ctx: TypeCtx, c: CompDecl, s: FieldsState, i: int) -> FieldsState {
    let b = c.bases@[i];
    if b.is_virtual || base_is_unsized(ctx, b) {
        s
    } else {
        FieldsState {
            tracker: saw_aligned_spec(s.tracker, ctx.ty(b.ty as int).layout.unwrap()),
            fields: s.fields.push("pub "@ + base_field_name(i as nat) + ": "@ + render_or_opaque(ctx, b.ty as int) + ","@),
            ..s
        }
    }
}

/// The state after the first `k` bases.
pub open spec fn bases_run(ctx: TypeCtx, c: CompDecl, start: FieldsState, k: int) -> FieldsState
    decreases k,
{
    if k <= 0 { start } else { base_step(ctx, c, bases_run(ctx, c, start, k - 1), k - 1) }
}

pub open spec fn initial_state(c: CompDecl) -> FieldsState {
    FieldsState {
        tracker: StructLayoutTracker {
            latest_offset: 0,
            padding_count: 0,
            latest_field_layout: None,
            max_field_align: 0,
            last_field_was_bitfield: false,
            packed: c.packed,
        },
        anon: 0,
        fields: Seq::empty(),
        methods: Seq::empty(),
        incomplete_array: false,
    }
}

pub open spec fn vtable_field_text(c: CompDecl) -> Seq<char> {
    "pub vtable_: *const "@ + c.name@ + "__bindgen_vtable,"@
}

pub open spec fn vtable_state(c: CompDecl, s: FieldsState) -> FieldsState {
    if c.needs_explicit_vtable {
        FieldsState { tracker: saw_vtable_spec(s.tracker), fields: s.fields.push(vtable_field_text(c)), ..s }
    } else {
        s
    }
}

/// The storage that gives a union its size: a blob of its layout.
pub open spec fn union_state(c: CompDecl, s: FieldsState) -> FieldsState {
    match c.layout {
        Some(l) => if !c.is_union {
            s
        } else if c.can_be_rust_union {
            FieldsState { fields: s.fields.push("_bindgen_union_align: "@ + blob_text(l) + ","@), ..s }
        } else {
            FieldsState {
                tracker: saw_aligned_spec(s.tracker, l),
                fields: s.fields.push("pub bindgen_union_field: "@ + blob_text(l) + ","@),
                ..s
            }
        },
        None => s,
    }
}

/// The tail of a sized struct: padding up to its size, then the filler
/// that raises its alignment.
pub open spec fn tail_state(c: CompDecl, s: FieldsState) -> FieldsState {
    match c.layout {
        Some(l) => if c.is_union || c.is_unsized {
            s
        } else {
            let s1 = match tail_padding(s.tracker, l) {
                Some(pl) => FieldsState {
                    tracker: after_padding_field(s.tracker, pl),
                    fields: s.fields.push(padding_field_text(s.tracker.padding_count, pl)),
                    ..s
                },
                None => s,
            };
            match align_filler(s1.tracker, l) {
                Some(x) => FieldsState { fields: s1.fields.push(x), ..s1 },
                None => s1,
            }
        },
        None => s,
    }
}

/// What the members of a composite produce, before the address byte and
/// the template markers.
pub open spec fn body_state(ctx: TypeCtx, opts: CompOptions, c: CompDecl) -> FieldsState {
    if c.is_opaque {
        FieldsState {
            fields: match c.layout {
                Some(l) => seq!["pub _bindgen_opaque_blob: "@ + blob_text(l) + ","@],
                None => Seq::empty(),
            },
            ..initial_state(c)
        }
    } else {
        let s1 = vtable_state(c, initial_state(c));
        let s2 = bases_run(ctx, c, s1, c.bases.len() as int);
        let s3 = fields_run(ctx, opts, c, s2, c.fields.len() as int);
        tail_state(c, union_state(c, s3))
    }
}

/// One byte for a composite that C++ would give an address.
pub open spec fn address_fields(c: CompDecl) -> Seq<Seq<char>> {
    let has_address = if c.is_opaque { c.layout is None } else {
        match c.layout {
            Some(l) => l.size != 0,
            None => true,
        }
    };
    if c.is_unsized && has_address { seq!["pub _address: u8,"@] } else { Seq::empty() }
}

/// One marker per used template parameter, which keeps it invariant.
pub open spec fn phantom_fields(params: Seq<String>, k: int) -> Seq<Seq<char>>
    decreases k,
{
    if k <= 0 {
        Seq::empty()
    } else {
        phantom_fields(params, k - 1).push("pub _phantom_"@ + dec((k - 1) as nat)
            + ": ::std::marker::PhantomData<::std::cell::UnsafeCell<"@ + params[k - 1]@ + ">>,"@)
    }
}

pub open spec fn all_fields(ctx: TypeCtx, opts: CompOptions, c: CompDecl) -> Seq<Seq<char>> {
    body_state(ctx, opts, c).fields + address_fields(c) + phantom_fields(c.template_params@, c.template_params.len() as int)
}


/// Every type a composite refers to is in the context, and every bitfield
/// lies inside its unit.
pub open spec fn comp_well_formed(ctx: TypeCtx, c: CompDecl) -> bool {
    &&& forall|i: int| 0 <= i < c.bases.len() ==> (#[trigger] c.bases@[i]).ty < ctx.len()
    &&& forall|i: int| 0 <= i < c.fields.len() ==> match #[trigger] c.fields@[i] {
        FieldDecl::Data(f) => f.ty < ctx.len(),
        FieldDecl::Bitfields(u) => unit_well_formed(u),
    }
}

/// The members emitted so far, as the emitter holds them.
pub struct FieldsOut {
    pub tracker: StructLayoutTracker,
    pub anon: u64,
    pub fields: Vec<String>,
    pub methods: Vec<String>,
    pub incomplete_array: bool,
}

pub open spec fn out_view(o: FieldsOut) -> FieldsState {
    FieldsState {
        tracker: o.tracker,
        anon: o.anon as nat,
        fields: views(o.fields@),
        methods: views(o.methods@),
        incomplete_array: o.incomplete_array,
    }
}

fn push_text(v: &mut Vec<String>, x: String)
    ensures
        views(final(v)@) == views(old(v)@).push(x@),
{
    let ghost prev = v@;
    v.push(x);
    proof {
        assert(views(v@) =~= views(prev).push(x@));
    }
}

fn field_type(ctx: &TypeCtx, opts: &CompOptions, c: &CompDecl, f: &DataField) -> (r: (String, bool))
    requires
        ctx.wf(),
        f.ty < ctx.len(),
    ensures
        r.0@ == field_type_text(*ctx, *opts, *c, *f),
        r.1 == (!(c.is_union && !c.can_be_rust_union) && incomplete_elem(*ctx, f.ty as int) is Some),
{
    proof {
        assert(crate::ir::kind_refs_below(ctx.ty(f.ty as int).kind, f.ty as int));
    }
    let mut s = if opts.namespaces { String::from_str("root::") } else { String::new() };
    if c.is_union && !c.can_be_rust_union {
        s.append("__BindgenUnionField<");
        let t = crate::types::to_rust_ty_or_opaque(ctx, f.ty);
        s.append(t.as_str());
        s.append(">");
        return (s, false);
    }
    let elem: Option<usize> = match &ctx.types[f.ty].kind {
        TypeKind::Array(e, n) => if *n == 0 { Some(*e) } else { None },
        _ => None,
    };
    match elem {
        Some(e) => {
            s.append("__IncompleteArrayField<");
            let t = crate::types::to_rust_ty_or_opaque(ctx, e);
            s.append(t.as_str());
            s.append(">");
            (s, true)
        },
        None => {
            let mut t = crate::types::to_rust_ty_or_opaque(ctx, f.ty);
            let imp = crate::types::implicit_template_params(ctx, f.ty);
            t.append(imp.as_str());
            (t, false)
        },
    }
}

fn data_field(ctx: &TypeCtx, opts: &CompOptions, c: &CompDecl, f: &DataField, out: &mut FieldsOut)
    requires
        ctx.wf(),
        f.ty < ctx.len(),
        old(out).anon < u64::MAX,
    ensures
        out_view(*final(out)) == field_step(*ctx, *opts, *c, out_view(*old(out)), FieldDecl::Data(*f)),
{
    let ghost s = out_view(*out);
    reveal(field_step);
    let name = match &f.name {
        Some(n) => n.clone(),
        None => {
            out.anon = out.anon + 1;
            let mut a = String::from_str("__bindgen_anon_");
            push_decimal(&mut a, out.anon);
            a
        },
    };
    let (ty, incomplete) = field_type(ctx, opts, c, f);
    out.incomplete_array = out.incomplete_array || incomplete;
    if !c.is_union {
        match ctx.types[f.ty].layout {
            Some(l) => {
                let pad = out.tracker.pad_field(l, f.offset_bits);
                match pad {
                    Some(p) => push_text(&mut out.fields, p),
                    None => {},
                }
            },
            None => {},
        }
    }
    let private = match f.private {
        Some(p) => p,
        None => c.private_fields,
    };
    let kind = match f.accessor {
        Some(k) => k,
        None => c.accessor_kind,
    };
    let mut line = if private { String::new() } else { String::from_str("pub ") };
    line.append(name.as_str());
    line.append(": ");
    line.append(ty.as_str());
    line.append(",");
    proof {
        if private {
            assert(line@ =~= Seq::<char>::empty() + name@ + ": "@ + ty@ + ","@);
        }
    }
    push_text(&mut out.fields, line);
    match accessors(kind, &name, &ty) {
        Some(a) => push_text(&mut out.methods, a),
        None => {},
    }
    proof {
        assert(out_view(*out) =~= field_step(*ctx, *opts, *c, s, FieldDecl::Data(*f)));
    }
}

fn bitfield_field(ctx: &TypeCtx, opts: &CompOptions, c: &CompDecl, u: &BitfieldUnit, out: &mut FieldsOut)
    requires
        unit_well_formed(*u),
    ensures
        out_view(*final(out)) == field_step(*ctx, *opts, *c, out_view(*old(out)), FieldDecl::Bitfields(*u)),
{
    let ghost s = out_view(*out);
    reveal(field_step);
    let code = codegen_bitfield_unit(u, &c.method_names, opts.const_fn);
    push_text(&mut out.fields, code.field);
    let mut ms = code.methods;
    let ghost prev = out.methods@;
    let ghost added = ms@;
    out.methods.append(&mut ms);
    proof {
        assert(views(out.methods@) =~= views(prev) + views(added));
    }
    out.tracker.saw_bitfield_unit(u.layout);
    proof {
        assert(out_view(*out) =~= field_step(*ctx, *opts, *c, s, FieldDecl::Bitfields(*u)));
    }
}


fn comp_body(ctx: &TypeCtx, opts: &CompOptions, c: &CompDecl) -> (r: FieldsOut)
    requires
        ctx.wf(),
        comp_well_formed(*ctx, *c),
    ensures
        out_view(r) == body_state(*ctx, *opts, *c),
{
    let mut out = FieldsOut {
        tracker: StructLayoutTracker::new(c.packed),
        anon: 0,
        fields: Vec::new(),
        methods: Vec::new(),
        incomplete_array: false,
    };
    proof {
        assert(views(out.fields@) =~= Seq::<Seq<char>>::empty());
        assert(views(out.methods@) =~= Seq::<Seq<char>>::empty());
        assert(out_view(out) == initial_state(*c));
    }
    if c.is_opaque {
        match c.layout {
            Some(l) => {
                let mut line = String::from_str("pub _bindgen_opaque_blob: ");
                let b = blob(l);
                line.append(b.as_str());
                line.append(",");
                push_text(&mut out.fields, line);
            },
            None => {},
        }
        proof {
            assert(out_view(out) =~= body_state(*ctx, *opts, *c));
        }
        return out;
    }
    if c.needs_explicit_vtable {
        let mut line = String::from_str("pub vtable_: *const ");
        line.append(c.name.as_str());
        line.append("__bindgen_vtable,");
        push_text(&mut out.fields, line);
        out.tracker.saw_vtable();
    }
    let ghost s1 = out_view(out);
    proof {
        assert(s1 == vtable_state(*c, initial_state(*c)));
    }
    let mut i: usize = 0;
    while i < c.bases.len()
        invariant
            i <= c.bases.len(),
            ctx.wf(),
            comp_well_formed(*ctx, *c),
            out_view(out) == bases_run(*ctx, *c, s1, i as int),
            out.anon == 0,
        decreases c.bases.len() - i,
    {
        proof {
            assert(c.bases@[i as int].ty < ctx.len());
        }
        base_field(ctx, c, i, &mut out);
        i = i + 1;
    }
    fields_loop(ctx, opts, c, &mut out);
    union_fields(c, &mut out);
    tail_fields(c, &mut out);
    out
}


fn base_field(ctx: &TypeCtx, c: &CompDecl, i: usize, out: &mut FieldsOut)
    requires
        ctx.wf(),
        i < c.bases.len(),
        c.bases@[i as int].ty < ctx.len(),
    ensures
        out_view(*final(out)) == base_step(*ctx, *c, out_view(*old(out)), i as int),
        final(out).anon == old(out).anon,
{
    let ghost s = out_view(*out);
    let b = &c.bases[i];
    let sized = match ctx.types[b.ty].layout {
        Some(l) => l.size != 0,
        None => false,
    };
    if !b.is_virtual && sized {
        let mut line = String::from_str("pub ");
        if i == 0 {
            line.append("_base");
        } else {
            line.append("_base_");
            push_decimal(&mut line, i as u64);
        }
        line.append(": ");
        let t = crate::types::to_rust_ty_or_opaque(ctx, b.ty);
        line.append(t.as_str());
        line.append(",");
        proof {
            assert(line@ == "pub "@ + base_field_name(i as nat) + ": "@ + render_or_opaque(*ctx, b.ty as int) + ","@);
        }
        push_text(&mut out.fields, line);
        match ctx.types[b.ty].layout {
            Some(l) => out.tracker.saw_aligned(l),
            None => {},
        }
    }
    proof {
        let e = base_step(*ctx, *c, s, i as int);
        assert(out_view(*out).tracker == e.tracker);
        assert(out_view(*out).fields == e.fields);
        assert(out_view(*out) == e);
    }
}

fn union_fields(c: &CompDecl, out: &mut FieldsOut)
    ensures
        out_view(*final(out)) == union_state(*c, out_view(*old(out))),
{
    let ghost s = out_view(*out);
    match c.layout {
        Some(l) => {
            if c.is_union {
                if c.can_be_rust_union {
                    let mut line = String::from_str("_bindgen_union_align: ");
                    let b = blob(l);
                    line.append(b.as_str());
                    line.append(",");
                    push_text(&mut out.fields, line);
                } else {
                    out.tracker.saw_aligned(l);
                    let mut line = String::from_str("pub bindgen_union_field: ");
                    let b = blob(l);
                    line.append(b.as_str());
                    line.append(",");
                    push_text(&mut out.fields, line);
                }
            }
        },
        None => {},
    }
    proof {
        assert(out_view(*out) =~= union_state(*c, s));
    }
}

fn tail_fields(c: &CompDecl, out: &mut FieldsOut)
    ensures
        out_view(*final(out)) == tail_state(*c, out_view(*old(out))),
{
    let ghost s = out_view(*out);
    match c.layout {
        Some(l) => {
            if !c.is_union && !c.is_unsized {
                let pad = out.tracker.pad_struct(l);
                match pad {
                    Some(p) => push_text(&mut out.fields, p),
                    None => {},
                }
                let filler = out.tracker.align_struct(l);
                match filler {
                    Some(x) => push_text(&mut out.fields, x),
                    None => {},
                }
            }
        },
        None => {},
    }
    proof {
        assert(out_view(*out) =~= tail_state(*c, s));
    }
}


fn fields_loop(ctx: &TypeCtx, opts: &CompOptions, c: &CompDecl, out: &mut FieldsOut)
    requires
        ctx.wf(),
        comp_well_formed(*ctx, *c),
        old(out).anon == 0,
    ensures
        out_view(*final(out)) == fields_run(*ctx, *opts, *c, out_view(*old(out)), c.fields.len() as int),
{
    let ghost s2 = out_view(*out);
    let mut k: usize = 0;
    while k < c.fields.len()
        invariant
            k <= c.fields.len(),
            ctx.wf(),
            comp_well_formed(*ctx, *c),
            out_view(*out) == fields_run(*ctx, *opts, *c, s2, k as int),
            out.anon <= k,
        decreases c.fields.len() - k,
    {
        let ghost f = c.fields@[k as int];
        proof {
            assert(match f {
                FieldDecl::Data(d) => d.ty < ctx.len(),
                FieldDecl::Bitfields(u) => unit_well_formed(u),
            });
        }
        match &c.fields[k] {
            FieldDecl::Data(d) => data_field(ctx, opts, c, d, out),
            FieldDecl::Bitfields(u) => bitfield_field(ctx, opts, c, u, out),
        }
        proof {
            reveal(field_step);
        }
        k = k + 1;
    }
}


/// The traits a composite derives.
pub open spec fn derive_list(opts: CompOptions, c: CompDecl) -> Seq<Seq<char>> {
    let d0: Seq<Seq<char>> = if c.derives.debug { seq!["Debug"@] } else { Seq::empty() };
    let d1 = if c.derives.default { d0.push("Default"@) } else { d0 };
    let d2 = if c.derives.copy && opts.derive_copy {
        if c.template_params.len() > 0 { d1.push("Copy"@).push("Clone"@) } else { d1.push("Copy"@) }
    } else {
        d1
    };
    let d3 = if c.derives.hash { d2.push("Hash"@) } else { d2 };
    let d4 = if c.derives.partialeq { d3.push("PartialEq"@) } else { d3 };
    if c.derives.eq { d4.push("Eq"@) } else { d4 }
}

pub open spec fn comp_attrs(opts: CompOptions, c: CompDecl) -> Seq<char> {
    let ds = derive_list(opts, c);
    (match c.comment {
        Some(t) => "/// "@ + t@ + "\n"@,
        None => Seq::empty(),
    }) + (if c.packed { "#[repr(C, packed)]\n"@ } else { "#[repr(C)]\n"@ })
        + (if ds.len() > 0 { "#[derive("@ + join(ds, ", "@) + ")]\n"@ } else { Seq::empty() })
}

/// `<T, U>` for a template, nothing otherwise.
pub open spec fn generics_text(c: CompDecl) -> Seq<char> {
    if c.template_params.len() > 0 { "<"@ + join(views(c.template_params@), ", "@) + ">"@ } else { Seq::empty() }
}

pub open spec fn struct_item_text(ctx: TypeCtx, opts: CompOptions, c: CompDecl) -> Seq<char> {
    comp_attrs(opts, c) + (if c.is_union && c.can_be_rust_union { "pub union "@ } else { "pub struct "@ })
        + c.name@ + generics_text(c) + " {\n"@ + lines(all_fields(ctx, opts, c)) + "}"@
}

/// The assertion on the offset of each named data member with a known
/// offset, among the first `k` fields.
pub open spec fn offset_asserts(c: CompDecl, k: int) -> Seq<char>
    decreases k,
{
    if k <= 0 {
        Seq::empty()
    } else {
        let rest = offset_asserts(c, k - 1);
        match c.fields@[k - 1] {
            FieldDecl::Data(f) => match (f.name, f.offset_bits) {
                (Some(n), Some(o)) => rest + "assert_eq!(unsafe { &(*(0 as *const "@ + c.name@ + "))."@ + n@
                    + " as *const _ as usize }, "@ + dec((o / 8) as nat) + "usize, concat!(\"Alignment of field: \", stringify!("@
                    + c.name@ + "), \"::\", stringify!("@ + n@ + ")));\n"@,
                _ => rest,
            },
            FieldDecl::Bitfields(_) => rest,
        }
    }
}

/// How many of the first `k` bases have a vtable.
pub open spec fn vtable_bases(c: CompDecl, k: int) -> nat
    decreases k,
{
    if k <= 0 { 0 } else { vtable_bases(c, k - 1) + if c.bases@[k - 1].has_vtable { 1nat } else { 0nat } }
}

/// The test that checks the emitted record's size, its alignment when the
/// target can express it, and the offset of each named member, against the
/// C layout. Offsets are not checked for an opaque composite, nor under more
/// than one base with a vtable.
pub open spec fn layout_test_text(c: CompDecl, l: Layout) -> Seq<char> {
    let n = c.name@;
    "#[test]\nfn bindgen_test_layout_"@ + n + "() {\nassert_eq!(::std::mem::size_of::<"@ + n + ">(), "@
        + dec(l.size as nat) + "usize, concat!(\"Size of: \", stringify!("@ + n + ")));\n"@
        + (if l.align <= POINTER_SIZE {
            "assert_eq!(::std::mem::align_of::<"@ + n + ">(), "@ + dec(l.align as nat)
                + "usize, concat!(\"Alignment of \", stringify!("@ + n + ")));\n"@
        } else {
            Seq::empty()
        })
        + (if c.is_opaque || vtable_bases(c, c.bases.len() as int) > 1 { Seq::empty() } else { offset_asserts(c, c.fields.len() as int) })
        + "}"@
}

pub open spec fn vtable_item_text(c: CompDecl) -> Seq<char> {
    "#[repr(C)]\npub struct "@ + c.name@ + "__bindgen_vtable(::std::os::raw::c_void);"@
}

pub open spec fn forward_item_text(c: CompDecl) -> Seq<char> {
    "#[repr(C)]\n#[derive(Debug, Copy, Clone)]\npub struct "@ + c.name@ + " {\n_unused: [u8; 0],\n}"@
}

/// Whether the composite is emitted as a record at all (and not skipped or
/// reduced to a forward declaration).
pub open spec fn emits_record(c: CompDecl) -> bool {
    !c.has_non_type_template_params && !(c.is_forward_declaration && c.template_params.len() == 0)
}

/// Everything a composite emits, in order: its vtable type, the record, its
/// layout test, and its `Clone`, `Default` and inherent impls.
pub open spec fn comp_items(ctx: TypeCtx, opts: CompOptions, c: CompDecl) -> Seq<Seq<char>> {
    if c.has_non_type_template_params {
        Seq::empty()
    } else if c.is_forward_declaration && c.template_params.len() == 0 {
        seq![forward_item_text(c)]
    } else {
        let g = generics_text(c);
        let body = body_state(ctx, opts, c);
        let vt: Seq<Seq<char>> = if c.needs_explicit_vtable && !c.is_opaque { seq![vtable_item_text(c)] } else { Seq::empty() };
        let test: Seq<Seq<char>> = match c.layout {
            Some(l) => if opts.layout_tests && c.template_params.len() == 0 { seq![layout_test_text(c, l)] } else { Seq::empty() },
            None => Seq::empty(),
        };
        let clone: Seq<Seq<char>> = if c.derives.copy && opts.derive_copy && c.template_params.len() == 0 {
            seq!["impl Clone for "@ + c.name@ + " {\nfn clone(&self) -> Self {\n*self\n}\n}"@]
        } else {
            Seq::empty()
        };
        let default: Seq<Seq<char>> = if !c.derives.default && opts.derive_default {
            seq!["impl"@ + g + " Default for "@ + c.name@ + g + " {\nfn default() -> Self {\nunsafe { ::std::mem::zeroed() }\n}\n}"@]
        } else {
            Seq::empty()
        };
        let debug: Seq<Seq<char>> = if !c.derives.debug && opts.derive_debug && opts.impl_debug {
            seq![debug_impl_text(c)]
        } else {
            Seq::empty()
        };
        let methods: Seq<Seq<char>> = if body.methods.len() > 0 {
            seq!["impl"@ + g + " "@ + c.name@ + g + " {\n"@ + lines(body.methods) + "}"@]
        } else {
            Seq::empty()
        };
        vt.push(struct_item_text(ctx, opts, c)) + test + clone + default + debug + methods
    }
}


pub(crate) fn push_lines(s: &mut String, v: &Vec<String>)
    ensures
        final(s)@ == old(s)@ + lines(views(v@)),
{
    let ghost start = s@;
    let mut i: usize = 0;
    while i < v.len()
        invariant
            i <= v.len(),
            s@ == start + lines(views(v@).subrange(0, i as int)),
        decreases v.len() - i,
    {
        s.append(v[i].as_str());
        s.append("\n");
        proof {
            let sub = views(v@).subrange(0, i + 1);
            assert(sub.drop_last() =~= views(v@).subrange(0, i as int));
            assert(sub.last() == v@[i as int]@);
        }
        i = i + 1;
    }
    proof {
        assert(views(v@).subrange(0, i as int) =~= views(v@));
    }
}

fn derives(opts: &CompOptions, c: &CompDecl) -> (r: Vec<String>)
    ensures
        views(r@) == derive_list(*opts, *c),
{
    let mut d: Vec<String> = Vec::new();
    proof {
        assert(views(d@) =~= Seq::<Seq<char>>::empty());
    }
    if c.derives.debug {
        push_text(&mut d, String::from_str("Debug"));
        proof {
            assert(Seq::<Seq<char>>::empty().push("Debug"@) =~= seq!["Debug"@]);
        }
    }
    if c.derives.default {
        push_text(&mut d, String::from_str("Default"));
    }
    if c.derives.copy && opts.derive_copy {
        push_text(&mut d, String::from_str("Copy"));
        if c.template_params.len() > 0 {
            push_text(&mut d, String::from_str("Clone"));
        }
    }
    if c.derives.hash {
        push_text(&mut d, String::from_str("Hash"));
    }
    if c.derives.partialeq {
        push_text(&mut d, String::from_str("PartialEq"));
    }
    if c.derives.eq {
        push_text(&mut d, String::from_str("Eq"));
    }
    d
}

fn attrs(opts: &CompOptions, c: &CompDecl) -> (r: String)
    ensures
        r@ == comp_attrs(*opts, *c),
{
    let mut s = String::new();
    match &c.comment {
        Some(t) => {
            s.append("/// ");
            s.append(t.as_str());
            s.append("\n");
        },
        None => {},
    }
    if c.packed {
        s.append("#[repr(C, packed)]\n");
    } else {
        s.append("#[repr(C)]\n");
    }
    let ds = derives(opts, c);
    if ds.len() > 0 {
        s.append("#[derive(");
        let j = join_strings(&ds, ", ");
        s.append(j.as_str());
        s.append(")]\n");
    }
    proof {
        assert(s@ =~= comp_attrs(*opts, *c));
    }
    s
}

fn generics(c: &CompDecl) -> (r: String)
    ensures
        r@ == generics_text(*c),
{
    if c.template_params.len() > 0 {
        let mut s = String::from_str("<");
        let j = join_strings(&c.template_params, ", ");
        s.append(j.as_str());
        s.append(">");
        s
    } else {
        String::new()
    }
}

fn extra_fields(c: &CompDecl, fields: &mut Vec<String>)
    ensures
        views(final(fields)@) == views(old(fields)@) + address_fields(*c)
            + phantom_fields(c.template_params@, c.template_params.len() as int),
{
    let ghost start = views(fields@);
    let has_address = if c.is_opaque {
        c.layout.is_none()
    } else {
        match c.layout {
            Some(l) => l.size != 0,
            None => true,
        }
    };
    if c.is_unsized && has_address {
        push_text(fields, String::from_str("pub _address: u8,"));
    }
    proof {
        assert(views(fields@) =~= start + address_fields(*c));
    }
    let ghost mid = views(fields@);
    let mut i: usize = 0;
    while i < c.template_params.len()
        invariant
            i <= c.template_params.len(),
            views(fields@) == mid + phantom_fields(c.template_params@, i as int),
        decreases c.template_params.len() - i,
    {
        let mut line = String::from_str("pub _phantom_");
        push_decimal(&mut line, i as u64);
        line.append(": ::std::marker::PhantomData<::std::cell::UnsafeCell<");
        line.append(c.template_params[i].as_str());
        line.append(">>,");
        push_text(fields, line);
        proof {
            assert(views(fields@) =~= mid + phantom_fields(c.template_params@, i + 1));
        }
        i = i + 1;
    }
}

fn offsets(c: &CompDecl) -> (r: String)
    ensures
        r@ == offset_asserts(*c, c.fields.len() as int),
{
    let mut s = String::new();
    let mut k: usize = 0;
    while k < c.fields.len()
        invariant
            k <= c.fields.len(),
            s@ == offset_asserts(*c, k as int),
        decreases c.fields.len() - k,
    {
        match &c.fields[k] {
            FieldDecl::Data(f) => {
                match (&f.name, f.offset_bits) {
                    (Some(n), Some(o)) => {
                        s.append("assert_eq!(unsafe { &(*(0 as *const ");
                        s.append(c.name.as_str());
                        s.append(")).");
                        s.append(n.as_str());
                        s.append(" as *const _ as usize }, ");
                        push_decimal(&mut s, o / 8);
                        s.append("usize, concat!(\"Alignment of field: \", stringify!(");
                        s.append(c.name.as_str());
                        s.append("), \"::\", stringify!(");
                        s.append(n.as_str());
                        s.append(")));\n");
                    },
                    _ => {},
                }
            },
            FieldDecl::Bitfields(_) => {},
        }
        k = k + 1;
    }
    s
}

fn count_vtable_bases(c: &CompDecl) -> (r: u64)
    ensures
        r == vtable_bases(*c, c.bases.len() as int),
{
    let mut n: u64 = 0;
    let mut i: usize = 0;
    while i < c.bases.len()
        invariant
            i <= c.bases.len(),
            n == vtable_bases(*c, i as int),
            n <= i,
        decreases c.bases.len() - i,
    {
        if c.bases[i].has_vtable {
            n = n + 1;
        }
        i = i + 1;
    }
    n
}

/// The layout test of a composite.
pub fn layout_test(c: &CompDecl, l: Layout) -> (r: String)
    ensures
        r@ == layout_test_text(*c, l),
{
    let n = c.name.as_str();
    let mut s = String::from_str("#[test]\nfn bindgen_test_layout_");
    s.append(n);
    s.append("() {\nassert_eq!(::std::mem::size_of::<");
    s.append(n);
    s.append(">(), ");
    push_decimal(&mut s, l.size);
    s.append("usize, concat!(\"Size of: \", stringify!(");
    s.append(n);
    s.append(")));\n");
    if l.align <= POINTER_SIZE {
        s.append("assert_eq!(::std::mem::align_of::<");
        s.append(n);
        s.append(">(), ");
        push_decimal(&mut s, l.align);
        s.append("usize, concat!(\"Alignment of \", stringify!(");
        s.append(n);
        s.append(")));\n");
    }
    if !(c.is_opaque || count_vtable_bases(c) > 1) {
        let o = offsets(c);
        s.append(o.as_str());
    }
    s.append("}");
    proof {
        assert(s@ =~= layout_test_text(*c, l));
    }
    s
}


#[verifier::rlimit(40)]
fn record_items(ctx: &TypeCtx, opts: &CompOptions, c: &CompDecl) -> (r: (Vec<String>, bool))
    requires
        ctx.wf(),
        comp_well_formed(*ctx, *c),
        emits_record(*c),
    ensures
        views(r.0@) == comp_items(*ctx, *opts, *c),
        r.1 == body_state(*ctx, *opts, *c).incomplete_array,
{
    let g = generics(c);
    let body = comp_body(ctx, opts, c);
    let mut items: Vec<String> = Vec::new();
    proof {
        assert(views(items@) =~= Seq::<Seq<char>>::empty());
    }
    if c.needs_explicit_vtable && !c.is_opaque {
        let mut v = String::from_str("#[repr(C)]\npub struct ");
        v.append(c.name.as_str());
        v.append("__bindgen_vtable(::std::os::raw::c_void);");
        push_text(&mut items, v);
    }
    let mut fields = body.fields;
    extra_fields(c, &mut fields);
    let mut st = attrs(opts, c);
    if c.is_union && c.can_be_rust_union {
        st.append("pub union ");
    } else {
        st.append("pub struct ");
    }
    st.append(c.name.as_str());
    st.append(g.as_str());
    st.append(" {\n");
    push_lines(&mut st, &fields);
    st.append("}");
    proof {
        assert(views(fields@) == all_fields(*ctx, *opts, *c));
        assert(st@ == struct_item_text(*ctx, *opts, *c));
    }
    push_text(&mut items, st);
    match c.layout {
        Some(l) => {
            if opts.layout_tests && c.template_params.len() == 0 {
                push_text(&mut items, layout_test(c, l));
            }
        },
        None => {},
    }
    if c.derives.copy && opts.derive_copy && c.template_params.len() == 0 {
        let mut t = String::from_str("impl Clone for ");
        t.append(c.name.as_str());
        t.append(" {\nfn clone(&self) -> Self {\n*self\n}\n}");
        push_text(&mut items, t);
    }
    if !c.derives.default && opts.derive_default {
        let mut t = String::from_str("impl");
        t.append(g.as_str());
        t.append(" Default for ");
        t.append(c.name.as_str());
        t.append(g.as_str());
        t.append(" {\nfn default() -> Self {\nunsafe { ::std::mem::zeroed() }\n}\n}");
        push_text(&mut items, t);
    }
    if !c.derives.debug && opts.derive_debug && opts.impl_debug {
        push_text(&mut items, debug_impl(c));
    }
    if body.methods.len() > 0 {
        let mut t = String::from_str("impl");
        t.append(g.as_str());
        t.append(" ");
        t.append(c.name.as_str());
        t.append(g.as_str());
        t.append(" {\n");
        push_lines(&mut t, &body.methods);
        t.append("}");
        push_text(&mut items, t);
    }
    proof {
        assert(views(items@) =~= comp_items(*ctx, *opts, *c));
    }
    (items, body.incomplete_array)
}

/// Emits a struct, class or union: the record with its padding and
/// alignment fields, its layout test, its impls; it records which helper
/// types the record needs at the root.
pub fn codegen_comp(ctx: &TypeCtx, opts: &CompOptions, result: &mut CodegenResult, c: &CompDecl)
    requires
        ctx.wf(),
        comp_well_formed(*ctx, *c),
    ensures
        final(result).items_text() == old(result).items_text() + comp_items(*ctx, *opts, *c),
        final(result).saw_union == (old(result).saw_union || (emits_record(*c) && c.is_union)),
        final(result).saw_bindgen_union == (old(result).saw_bindgen_union
            || (emits_record(*c) && c.is_union && !c.can_be_rust_union)),
        final(result).saw_incomplete_array == (old(result).saw_incomplete_array
            || (emits_record(*c) && body_state(*ctx, *opts, *c).incomplete_array)),
        *final(result) == (CodegenResult {
            items: final(result).items,
            saw_union: final(result).saw_union,
            saw_bindgen_union: final(result).saw_bindgen_union,
            saw_incomplete_array: final(result).saw_incomplete_array,
            ..*old(result)
        }),
{
    if c.has_non_type_template_params {
        proof {
            assert(old(result).items_text() + comp_items(*ctx, *opts, *c) =~= old(result).items_text());
        }
        return;
    }
    if c.is_forward_declaration && c.template_params.len() == 0 {
        let mut t = String::from_str("#[repr(C)]\n#[derive(Debug, Copy, Clone)]\npub struct ");
        t.append(c.name.as_str());
        t.append(" {\n_unused: [u8; 0],\n}");
        result.push_item(tokens_of(t.as_str()));
        proof {
            assert(old(result).items_text().push(t@) =~= old(result).items_text() + comp_items(*ctx, *opts, *c));
        }
        return;
    }
    let (items, incomplete) = record_items(ctx, opts, c);
    if c.is_union {
        if c.can_be_rust_union {
            result.saw_union();
        } else {
            result.saw_bindgen_union();
        }
    }
    if incomplete {
        result.saw_incomplete_array();
    }
    let ghost start = result.items_text();
    let mut i: usize = 0;
    while i < items.len()
        invariant
            i <= items.len(),
            result.items_text() == start + views(items@).subrange(0, i as int),
            *result == (CodegenResult { items: result.items, ..*result }),
            result.saw_union == (old(result).saw_union || c.is_union),
            result.saw_bindgen_union == (old(result).saw_bindgen_union || (c.is_union && !c.can_be_rust_union)),
            result.saw_incomplete_array == (old(result).saw_incomplete_array || incomplete),
            result.saw_objc == old(result).saw_objc,
            result.codegen_id == old(result).codegen_id,
            result.items_seen == old(result).items_seen,
            result.functions_seen == old(result).functions_seen,
            result.vars_seen == old(result).vars_seen,
            result.overload_counters == old(result).overload_counters,
        decreases items.len() - i,
    {
        result.push_item(tokens_of(items[i].as_str()));
        proof {
            assert(views(items@).subrange(0, i + 1) =~= views(items@).subrange(0, i as int).push(items@[i as int]@));
        }
        i = i + 1;
    }
    proof {
        assert(views(items@).subrange(0, i as int) =~= views(items@));
    }
}


/// The getters of a data member named `n` of type `t`.
pub open spec fn accessor_text(kind: FieldAccessorKind, n: Seq<char>, t: Seq<char>) -> Option<Seq<char>> {
    let get = "(&self) -> &"@ + t + " {\n&self."@ + n + "\n}"@;
    let get_mut = "_mut(&mut self) -> &mut "@ + t + " {\n&mut self."@ + n + "\n}"@;
    match kind {
        FieldAccessorKind::NoAccessor => None,
        FieldAccessorKind::Regular => Some("#[inline]\npub fn get_"@ + n + get + "\n#[inline]\npub fn get_"@ + n + get_mut),
        FieldAccessorKind::Unsafe => Some("#[inline]\npub unsafe fn get_"@ + n + get + "\n#[inline]\npub unsafe fn get_"@ + n + get_mut),
        FieldAccessorKind::Immutable => Some("#[inline]\npub fn get_"@ + n + get),
    }
}

fn accessors(kind: FieldAccessorKind, n: &String, t: &String) -> (r: Option<String>)
    ensures
        r.is_some() == accessor_text(kind, n@, t@).is_some(),
        r.is_some() ==> r.unwrap()@ == accessor_text(kind, n@, t@).unwrap(),
{
    let mut get = String::from_str("(&self) -> &");
    get.append(t.as_str());
    get.append(" {\n&self.");
    get.append(n.as_str());
    get.append("\n}");
    let mut get_mut = String::from_str("_mut(&mut self) -> &mut ");
    get_mut.append(t.as_str());
    get_mut.append(" {\n&mut self.");
    get_mut.append(n.as_str());
    get_mut.append("\n}");
    match kind {
        FieldAccessorKind::NoAccessor => None,
        FieldAccessorKind::Immutable => {
            let mut s = String::from_str("#[inline]\npub fn get_");
            s.append(n.as_str());
            s.append(get.as_str());
            Some(s)
        },
        FieldAccessorKind::Regular => {
            let mut s = String::from_str("#[inline]\npub fn get_");
            s.append(n.as_str());
            s.append(get.as_str());
            s.append("\n#[inline]\npub fn get_");
            s.append(n.as_str());
            s.append(get_mut.as_str());
            Some(s)
        },
        FieldAccessorKind::Unsafe => {
            let mut s = String::from_str("#[inline]\npub unsafe fn get_");
            s.append(n.as_str());
            s.append(get.as_str());
            s.append("\n#[inline]\npub unsafe fn get_");
            s.append(n.as_str());
            s.append(get_mut.as_str());
            Some(s)
        },
    }
}


/// The named data members among the first `k` fields: their part of the
/// format string, and the arguments that fill it.
pub open spec fn debug_fields(c: CompDecl, k: int) -> (Seq<Seq<char>>, Seq<char>)
    decreases k,
{
    if k <= 0 {
        (Seq::empty(), Seq::empty())
    } else {
        let (fmts, args) = debug_fields(c, k - 1);
        match c.fields@[k - 1] {
            FieldDecl::Data(f) => match f.name {
                Some(n) => (fmts.push(n@ + ": {:?}"@), args + ", self."@ + n@),
                None => (fmts, args),
            },
            FieldDecl::Bitfields(_) => (fmts, args),
        }
    }
}

/// `Debug` written by hand, for a composite that cannot derive it: an
/// opaque composite or a union shows only that, a struct shows its named
/// data members.
#[verifier::opaque]
pub open spec fn debug_impl_text(c: CompDecl) -> Seq<char> {
    let g = generics_text(c);
    let (fmts, args) = debug_fields(c, c.fields.len() as int);
    let (inner, a) = if c.is_opaque {
        ("opaque"@, Seq::empty())
    } else if c.is_union {
        ("union"@, Seq::empty())
    } else {
        (join(fmts, ", "@), args)
    };
    "impl"@ + g + " ::std::fmt::Debug for "@ + c.name@ + g
        + " {\nfn fmt(&self, f: &mut ::std::fmt::Formatter) -> ::std::fmt::Result {\nwrite!(f, \""@ + c.name@
        + " {{ "@ + inner + " }}\""@ + a + ")\n}\n}"@
}

fn debug_impl(c: &CompDecl) -> (r: String)
    ensures
        r@ == debug_impl_text(*c),
{
    let mut fmts: Vec<String> = Vec::new();
    let mut args = String::new();
    let mut k: usize = 0;
    proof {
        assert(views(fmts@) =~= Seq::<Seq<char>>::empty());
    }
    while k < c.fields.len()
        invariant
            k <= c.fields.len(),
            (views(fmts@), args@) == debug_fields(*c, k as int),
        decreases c.fields.len() - k,
    {
        match &c.fields[k] {
            FieldDecl::Data(f) => match &f.name {
                Some(n) => {
                    let mut x = n.clone();
                    x.append(": {:?}");
                    push_text(&mut fmts, x);
                    args.append(", self.");
                    args.append(n.as_str());
                },
                None => {},
            },
            FieldDecl::Bitfields(_) => {},
        }
        k = k + 1;
    }
    let g = generics(c);
    let mut t = String::from_str("impl");
    t.append(g.as_str());
    t.append(" ::std::fmt::Debug for ");
    t.append(c.name.as_str());
    t.append(g.as_str());
    t.append(" {\nfn fmt(&self, f: &mut ::std::fmt::Formatter) -> ::std::fmt::Result {\nwrite!(f, \"");
    t.append(c.name.as_str());
    t.append(" {{ ");
    if c.is_opaque {
        t.append("opaque");
    } else if c.is_union {
        t.append("union");
    } else {
        let j = join_strings(&fmts, ", ");
        t.append(j.as_str());
    }
    t.append(" }}\"");
    if !c.is_opaque && !c.is_union {
        t.append(args.as_str());
    }
    t.append(")\n}\n}");
    proof {
        reveal(debug_impl_text);
        assert(t@ =~= debug_impl_text(*c));
    }
    t
}

} // verus!
