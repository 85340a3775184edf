use vstd::prelude::*;
use crate::bitfield::views;
use crate::ir::{kind_refs_below, Abi, FloatKind, FunctionSig, IntKind, TypeCtx, TypeItem, TypeKind};
use crate::layout::{blob, blob_text, Layout};
use crate::text::{dec, push_decimal};

verus! {

/// Why a type could not be rendered structurally.
#[derive(Clone, Copy, Debug, PartialEq, Eq, Structural)]
pub enum TyError {
    /// An opaque blob was needed and the type's layout is unknown.
    NoLayoutForOpaqueBlob,
    /// An instantiation of a template whose definition is opaque.
    InstantiationOfOpaqueType,
    /// A calling convention that cannot be written, by its code.
    UnknownAbi(u32),
}

/// `parts` with `sep` between each two.
pub open spec fn join(parts: Seq<Seq<char>>, sep: Seq<char>) -> Seq<char>
    decreases parts.len(),
{
    if parts.len() == 0 {
        Seq::empty()
    } else if parts.len() == 1 {
        parts[0]
    } else {
        join(parts.drop_last(), sep) + sep + parts.last()
    }
}

pub fn join_strings(parts: &Vec<String>, sep: &str) -> (r: String)
    ensures
        r@ == join(views(parts@), sep@),
{
    let mut s = String::new();
    let mut i: usize = 0;
    while i < parts.len()
        invariant
            i <= parts.len(),
            s@ == join(views(parts@).subrange(0, i as int), sep@),
        decreases parts.len() - i,
    {
        proof {
            let sub = views(parts@).subrange(0, i + 1);
            assert(sub.drop_last() =~= views(parts@).subrange(0, i as int));
            assert(sub.last() == parts@[i as int]@);
        }
        if i > 0 {
            s.append(sep);
        } else {
            proof {
                assert(s@ =~= Seq::<char>::empty());
            }
        }
        s.append(parts[i].as_str());
        proof {
            if i == 0 {
                assert(s@ =~= parts@[0]@);
            }
        }
        i = i + 1;
    }
    proof {
        assert(views(parts@).subrange(0, i as int) =~= views(parts@));
    }
    s
}

/// The type of each C integer kind.
pub open spec fn int_text(k: IntKind) -> Seq<char> {
    match k {
        IntKind::Bool => "bool"@,
        IntKind::Char => "::std::os::raw::c_char"@,
        IntKind::SChar => "::std::os::raw::c_schar"@,
        IntKind::UChar => "::std::os::raw::c_uchar"@,
        IntKind::Short => "::std::os::raw::c_short"@,
        IntKind::UShort => "::std::os::raw::c_ushort"@,
        IntKind::Int => "::std::os::raw::c_int"@,
        IntKind::UInt => "::std::os::raw::c_uint"@,
        IntKind::Long => "::std::os::raw::c_long"@,
        IntKind::ULong => "::std::os::raw::c_ulong"@,
        IntKind::LongLong => "::std::os::raw::c_longlong"@,
        IntKind::ULongLong => "::std::os::raw::c_ulonglong"@,
        IntKind::I8 => "i8"@,
        IntKind::U8 => "u8"@,
        IntKind::I16 => "i16"@,
        IntKind::U16 => "u16"@,
        IntKind::I32 => "i32"@,
        IntKind::U32 => "u32"@,
        IntKind::I64 => "i64"@,
        IntKind::U64 => "u64"@,
        IntKind::I128 => "[u64; 2]"@,
        IntKind::U128 => "[u64; 2]"@,
    }
}

pub fn int_type(k: IntKind) -> (r: &'static str)
    ensures
        r@ == int_text(k),
{
    match k {
        IntKind::Bool => "bool",
        IntKind::Char => "::std::os::raw::c_char",
        IntKind::SChar => "::std::os::raw::c_schar",
        IntKind::UChar => "::std::os::raw::c_uchar",
        IntKind::Short => "::std::os::raw::c_short",
        IntKind::UShort => "::std::os::raw::c_ushort",
        IntKind::Int => "::std::os::raw::c_int",
        IntKind::UInt => "::std::os::raw::c_uint",
        IntKind::Long => "::std::os::raw::c_long",
        IntKind::ULong => "::std::os::raw::c_ulong",
        IntKind::LongLong => "::std::os::raw::c_longlong",
        IntKind::ULongLong => "::std::os::raw::c_ulonglong",
        IntKind::I8 => "i8",
        IntKind::U8 => "u8",
        IntKind::I16 => "i16",
        IntKind::U16 => "u16",
        IntKind::I32 => "i32",
        IntKind::U32 => "u32",
        IntKind::I64 => "i64",
        IntKind::U64 => "u64",
        IntKind::I128 => "[u64; 2]",
        IntKind::U128 => "[u64; 2]",
    }
}

/// The floating type of matching size.
pub open spec fn float_text(k: FloatKind) -> Seq<char> {
    match k {
        FloatKind::Float => "f32"@,
        _ => "f64"@,
    }
}

pub fn float_type(k: FloatKind) -> (r: &'static str)
    ensures
        r@ == float_text(k),
{
    match k {
        FloatKind::Float => "f32",
        _ => "f64",
    }
}

/// The name under which a calling convention is written.
pub open spec fn abi_text(a: Abi) -> Option<Seq<char>> {
    match a {
        Abi::C => Some("C"@),
        Abi::Stdcall => Some("stdcall"@),
        Abi::Fastcall => Some("fastcall"@),
        Abi::ThisCall => Some("thiscall"@),
        Abi::Aapcs => Some("aapcs"@),
        Abi::Win64 => Some("win64"@),
        Abi::Unknown(_) => None,
    }
}

pub fn abi_name(a: Abi) -> (r: Option<&'static str>)
    ensures
        r.is_some() == abi_text(a).is_some(),
        r.is_some() ==> r.unwrap()@ == abi_text(a).unwrap(),
{
    match a {
        Abi::C => Some("C"),
        Abi::Stdcall => Some("stdcall"),
        Abi::Fastcall => Some("fastcall"),
        Abi::ThisCall => Some("thiscall"),
        Abi::Aapcs => Some("aapcs"),
        Abi::Win64 => Some("win64"),
        Abi::Unknown(_) => None,
    }
}

/// The code of an unknown calling convention (0 for the others).
pub fn abi_code(a: Abi) -> (r: u32)
    ensures
        a is Unknown ==> r == a->Unknown_0,
{
    match a {
        Abi::Unknown(c) => c,
        _ => 0,
    }
}

/// The primitive that a well-known C typedef stands for.
pub open spec fn named_primitive(name: Seq<char>) -> Option<Seq<char>> {
    if name == "int8_t"@ { Some("i8"@) }
    else if name == "uint8_t"@ { Some("u8"@) }
    else if name == "int16_t"@ { Some("i16"@) }
    else if name == "uint16_t"@ { Some("u16"@) }
    else if name == "int32_t"@ { Some("i32"@) }
    else if name == "uint32_t"@ { Some("u32"@) }
    else if name == "int64_t"@ { Some("i64"@) }
    else if name == "uint64_t"@ { Some("u64"@) }
    else if name == "uintptr_t"@ || name == "size_t"@ { Some("usize"@) }
    else if name == "intptr_t"@ || name == "ptrdiff_t"@ || name == "ssize_t"@ { Some("isize"@) }
    else { None }
}

fn same(a: &String, b: &str) -> (r: bool)
    ensures
        r == (a@ == b@),
{
    let t = String::from_str(b);
    *a == t
}

/// The primitive type for a well-known C typedef name, if it is one.
pub fn type_from_named(name: &String) -> (r: Option<String>)
    ensures
        r.is_some() == named_primitive(name@).is_some(),
        r.is_some() ==> r.unwrap()@ == named_primitive(name@).unwrap(),
{
    let p: Option<&str> = if same(name, "int8_t") { Some("i8") }
        else if same(name, "uint8_t") { Some("u8") }
        else if same(name, "int16_t") { Some("i16") }
        else if same(name, "uint16_t") { Some("u16") }
        else if same(name, "int32_t") { Some("i32") }
        else if same(name, "uint32_t") { Some("u32") }
        else if same(name, "int64_t") { Some("i64") }
        else if same(name, "uint64_t") { Some("u64") }
        else if same(name, "uintptr_t") || same(name, "size_t") { Some("usize") }
        else if same(name, "intptr_t") || same(name, "ptrdiff_t") || same(name, "ssize_t") { Some("isize") }
        else { None };
    match p {
        Some(s) => Some(String::from_str(s)),
        None => None,
    }
}

/// A pointer to a type.
pub open spec fn ptr_text(t: Seq<char>, is_const: bool) -> Seq<char> {
    if is_const { "*const "@ + t } else { "*mut "@ + t }
}

pub fn to_ptr(t: String, is_const: bool) -> (r: String)
    ensures
        r@ == ptr_text(t@, is_const),
{
    let mut s = if is_const { String::from_str("*const ") } else { String::from_str("*mut ") };
    s.append(t.as_str());
    s
}

/// The path by which a type is referred to.
pub open spec fn path_text(t: TypeItem) -> Seq<char> {
    join(views(t.path@), "::"@)
}

/// The names of the template parameters a type uses, in order, among its
/// first `k` parameters.
pub open spec fn used_names(ctx: TypeCtx, t: TypeItem, k: int) -> Seq<Seq<char>>
    decreases k,
{
    if k <= 0 {
        Seq::empty()
    } else {
        let rest = used_names(ctx, t, k - 1);
        if t.param_used@[k - 1] { rest.push(ctx.ty(t.params@[k - 1] as int).name@) } else { rest }
    }
}

pub open spec fn used_params(ctx: TypeCtx, t: TypeItem) -> Seq<Seq<char>> {
    used_names(ctx, t, t.params.len() as int)
}

/// Whether a reference to a type of this kind carries the type's template
/// parameters.
pub open spec fn carries_params(k: TypeKind) -> bool {
    match k {
        TypeKind::Comp(_) | TypeKind::Alias(_) | TypeKind::TemplateAlias(_) | TypeKind::Reference(_)
        | TypeKind::ObjCInterface => true,
        _ => false,
    }
}

/// What follows a reference to a generic type: its used template
/// parameters in angle brackets.
pub open spec fn implicit_params_text(ctx: TypeCtx, id: int) -> Seq<char> {
    let t = ctx.ty(id);
    let names = used_params(ctx, t);
    if carries_params(t.kind) && names.len() > 0 { "<"@ + join(names, ", "@) + ">"@ } else { Seq::empty() }
}

/// The type an alias chain ends at.
pub open spec fn canonical(ctx: TypeCtx, id: int) -> int
    decreases id,
{
    if 0 <= id < ctx.len() {
        match ctx.ty(id).kind {
            TypeKind::Alias(t) => if t < id { canonical(ctx, t as int) } else { id },
            TypeKind::TemplateAlias(t) => if t < id { canonical(ctx, t as int) } else { id },
            _ => id,
        }
    } else {
        id
    }
}

pub open spec fn is_function(ctx: TypeCtx, id: int) -> bool {
    let c = canonical(ctx, id);
    0 <= c < ctx.len() && ctx.ty(c).kind is Function
}

pub open spec fn is_objc_interface(ctx: TypeCtx, id: int) -> bool {
    let c = canonical(ctx, id);
    0 <= c < ctx.len() && ctx.ty(c).kind is ObjCInterface
}

/// An opaque blob of the type's layout, when the layout is known.
pub open spec fn opaque_text(t: TypeItem) -> Result<Seq<char>, TyError> {
    match t.layout {
        Some(l) => Ok(blob_text(l)),
        None => Err(TyError::NoLayoutForOpaqueBlob),
    }
}

/// The layout an opaque blob falls back to: the type's own, else one byte.
pub open spec fn fallback_layout(t: TypeItem) -> Layout {
    match t.layout {
        Some(l) => l,
        None => Layout { size: 1, align: 1 },
    }
}

/// How many of the first `k` arguments have no name.
pub open spec fn unnamed_before(args: Seq<(Option<String>, usize)>, k: int) -> nat
    decreases k,
{
    if k <= 0 { 0 } else { unnamed_before(args, k - 1) + if args[k - 1].0 is None { 1nat } else { 0nat } }
}

/// The name of argument `k`: its own, or `argN` for the `N`th unnamed one.
pub open spec fn arg_name(args: Seq<(Option<String>, usize)>, k: int) -> Seq<char> {
    match args[k].0 {
        Some(n) => n@,
        None => "arg"@ + dec(unnamed_before(args, k + 1)),
    }
}

/// The rendering of a type: a path, a primitive, a pointer, an array, a
/// function pointer, or an opaque blob where the type asks for one; an
/// error where none can be written.
pub open spec fn render(ctx: TypeCtx, id: int) -> Result<Seq<char>, TyError>
    decreases id, 5int, 0int,
{
    if !(0 <= id < ctx.len()) {
        Err(TyError::NoLayoutForOpaqueBlob)
    } else {
        let t = ctx.ty(id);
        match t.kind {
            TypeKind::Void => Ok("::std::os::raw::c_void"@),
            TypeKind::NullPtr => Ok("*const ::std::os::raw::c_void"@),
            TypeKind::BlockPointer => Ok("*mut ::std::os::raw::c_void"@),
            TypeKind::Int(k) => Ok(int_text(k)),
            TypeKind::Float(k) => Ok(float_text(k)),
            TypeKind::Complex(k) => Ok((if ctx.namespaces { "root::"@ } else { Seq::empty() }) + "__BindgenComplex<"@
                + float_text(k) + ">"@),
            TypeKind::Array(e, n) => if e < id {
                match render(ctx, e as int) {
                    Ok(x) => Ok("["@ + x + "; "@ + dec(n as nat) + "usize]"@),
                    Err(err) => Err(err),
                }
            } else {
                Err(TyError::NoLayoutForOpaqueBlob)
            },
            TypeKind::Function(sig) => match abi_text(sig.abi) {
                Some(a) => Ok("::std::option::Option<unsafe extern \""@ + a + "\" fn("@
                    + args_text(ctx, sig.args@, sig.variadic, id) + ")"@ + ret_text(ctx, sig.ret as int, id) + ">"@),
                None => Err(TyError::UnknownAbi(sig.abi->Unknown_0)),
            },
            TypeKind::Pointer(p) => if p < id { Ok(pointer_text(ctx, t, p as int)) } else { Err(TyError::NoLayoutForOpaqueBlob) },
            TypeKind::Reference(p) => if p < id { Ok(pointer_text(ctx, t, p as int)) } else { Err(TyError::NoLayoutForOpaqueBlob) },
            TypeKind::Enum => Ok(path_text(t)),
            TypeKind::Comp(non_type) => if non_type || (t.is_opaque && t.params.len() > 0) {
                opaque_text(t)
            } else {
                Ok(path_text(t))
            },
            TypeKind::Alias(_) => alias_text(ctx, t),
            TypeKind::TemplateAlias(_) => alias_text(ctx, t),
            TypeKind::TemplateInstantiation(d, args) => if t.is_opaque || d >= id || ctx.ty(d as int).is_opaque
                || ctx.ty(d as int).params.len() == 0 {
                Err(TyError::InstantiationOfOpaqueType)
            } else {
                let def = ctx.ty(d as int);
                let n = if args.len() < def.params.len() { args.len() } else { def.params.len() };
                let n2 = if n < def.param_used.len() { n } else { def.param_used.len() };
                match inst_args(ctx, args@.subrange(0, n2 as int), def.param_used@.subrange(0, n2 as int), id) {
                    Ok(list) => if list.len() == 0 {
                        Ok(path_text(def))
                    } else {
                        Ok(path_text(def) + "<"@ + join(list, ", "@) + ">"@)
                    },
                    Err(err) => Err(err),
                }
            },
            TypeKind::TypeParam => Ok(t.name@),
            TypeKind::Opaque => opaque_text(t),
            TypeKind::ObjCSel => Ok("objc::runtime::Sel"@),
            TypeKind::ObjCId => Ok("id"@),
            TypeKind::ObjCInterface => Ok("id"@),
        }
    }
}

/// An alias: an opaque blob when it is opaque and generic, the primitive
/// for a well-known typedef, else its path.
pub open spec fn alias_text(ctx: TypeCtx, t: TypeItem) -> Result<Seq<char>, TyError> {
    if t.is_opaque && used_params(ctx, t).len() > 0 {
        opaque_text(t)
    } else {
        match named_primitive(t.name@) {
            Some(p) => Ok(p),
            None => Ok(path_text(t)),
        }
    }
}

/// A pointer or reference to `p`: constant when either side is const; a
/// function pointer is one already and is not wrapped again.
pub open spec fn pointer_text(ctx: TypeCtx, t: TypeItem, p: int) -> Seq<char>
    decreases p, 7int, 0int,
{
    let inner = render_or_opaque(ctx, p) + implicit_params_text(ctx, p);
    if is_function(ctx, p) { inner } else { ptr_text(inner, t.is_const || ctx.ty(p).is_const) }
}

/// The rendering, or an opaque blob of the type's layout when there is none.
pub open spec fn render_or_opaque(ctx: TypeCtx, id: int) -> Seq<char>
    decreases id, 6int, 0int,
{
    match render(ctx, id) {
        Ok(x) => x,
        Err(_) => if 0 <= id < ctx.len() { blob_text(fallback_layout(ctx.ty(id))) } else { blob_text(Layout { size: 1, align: 1 }) },
    }
}

/// The used template arguments of an instantiation, rendered.
pub open spec fn inst_args(ctx: TypeCtx, args: Seq<usize>, used: Seq<bool>, bound: int) -> Result<Seq<Seq<char>>, TyError>
    decreases bound, 0int, args.len(),
{
    if args.len() == 0 || used.len() != args.len() {
        Ok(Seq::empty())
    } else {
        match inst_args(ctx, args.drop_last(), used.drop_last(), bound) {
            Ok(list) => if !used.last() {
                Ok(list)
            } else if args.last() < bound {
                match render(ctx, args.last() as int) {
                    Ok(x) => Ok(list.push(x + implicit_params_text(ctx, args.last() as int))),
                    Err(e) => Err(e),
                }
            } else {
                Err(TyError::NoLayoutForOpaqueBlob)
            },
            Err(e) => Err(e),
        }
    }
}

/// The type of one argument: an array decays to a pointer to its element,
/// a pointer to an Objective-C interface is `id`.
pub open spec fn arg_type_text(ctx: TypeCtx, a: int, bound: int) -> Seq<char>
    decreases bound, 1int, 0int,
{
    let c = canonical(ctx, a);
    if 0 <= c < ctx.len() && a < bound {
        match ctx.ty(c).kind {
            TypeKind::Array(e, _) => if e < bound {
                ptr_text(render_or_opaque(ctx, e as int), ctx.ty(e as int).is_const)
            } else {
                Seq::empty()
            },
            TypeKind::Pointer(p) => if is_objc_interface(ctx, p as int) { "id"@ } else { render_or_opaque(ctx, a) },
            _ => render_or_opaque(ctx, a),
        }
    } else {
        Seq::empty()
    }
}

/// The arguments of a signature, `name: type` each.
pub open spec fn arg_list(ctx: TypeCtx, args: Seq<(Option<String>, usize)>, k: int, bound: int) -> Seq<Seq<char>>
    decreases bound, 2int, k,
{
    if k <= 0 || k > args.len() {
        Seq::empty()
    } else {
        arg_list(ctx, args, k - 1, bound).push(arg_name(args, k - 1) + ": "@ + arg_type_text(ctx, args[k - 1].1 as int, bound))
    }
}

/// The argument list between the parentheses, with `...` last when the
/// function is variadic.
pub open spec fn args_text(ctx: TypeCtx, args: Seq<(Option<String>, usize)>, variadic: bool, bound: int) -> Seq<char>
    decreases bound, 3int, 0int,
{
    let list = arg_list(ctx, args, args.len() as int, bound);
    join(if variadic { list.push("..."@) } else { list }, ", "@)
}

/// ` -> T`, or nothing for a function that returns `void`.
pub open spec fn ret_text(ctx: TypeCtx, r: int, bound: int) -> Seq<char>
    decreases bound, 0int, 0int,
{
    if 0 <= r < bound && r < ctx.len() {
        if ctx.ty(r).kind is Void { Seq::empty() } else { " -> "@ + render_or_opaque(ctx, r) }
    } else {
        Seq::empty()
    }
}


pub open spec fn res_view(r: Result<String, TyError>) -> Result<Seq<char>, TyError> {
    match r {
        Ok(s) => Ok(s@),
        Err(e) => Err(e),
    }
}

proof fn canonical_below(ctx: TypeCtx, id: int)
    requires
        0 <= id < ctx.len(),
        ctx.wf(),
    ensures
        0 <= canonical(ctx, id) <= id,
    decreases id,
{
    assert(kind_refs_below(ctx.ty(id).kind, id));
    match ctx.ty(id).kind {
        TypeKind::Alias(t) => canonical_below(ctx, t as int),
        TypeKind::TemplateAlias(t) => canonical_below(ctx, t as int),
        _ => {},
    }
}

/// The type an alias chain ends at.
pub fn canonical_type(ctx: &TypeCtx, id: usize) -> (r: usize)
    requires
        ctx.wf(),
        id < ctx.len(),
    ensures
        r == canonical(*ctx, id as int),
        r <= id,
    decreases id,
{
    proof {
        assert(kind_refs_below(ctx.ty(id as int).kind, id as int));
        canonical_below(*ctx, id as int);
    }
    match &ctx.types[id].kind {
        TypeKind::Alias(t) => canonical_type(ctx, *t),
        TypeKind::TemplateAlias(t) => canonical_type(ctx, *t),
        _ => id,
    }
}

/// The names of the template parameters a type uses.
pub fn used_template_params(ctx: &TypeCtx, id: usize) -> (r: Vec<String>)
    requires
        ctx.wf(),
        id < ctx.len(),
    ensures
        views(r@) == used_params(*ctx, ctx.ty(id as int)),
{
    let t = &ctx.types[id];
    proof {
        assert(ctx.ty(id as int).params.len() == ctx.ty(id as int).param_used.len());
    }
    let mut out: Vec<String> = Vec::new();
    let mut k: usize = 0;
    proof {
        assert(views(out@) =~= Seq::<Seq<char>>::empty());
    }
    while k < t.params.len()
        invariant
            k <= t.params.len(),
            t == ctx.ty(id as int),
            ctx.wf(),
            id < ctx.len(),
            t.params.len() == t.param_used.len(),
            views(out@) == used_names(*ctx, *t, k as int),
        decreases t.params.len() - k,
    {
        if t.param_used[k] {
            let p = t.params[k];
            proof {
                assert(ctx.ty(id as int).params@[k as int] < ctx.len());
            }
            let ghost prev = out@;
            out.push(ctx.types[p].name.clone());
            proof {
                assert(views(out@) =~= views(prev).push(ctx.ty(p as int).name@));
            }
        }
        k = k + 1;
    }
    out
}

/// The used template parameters of a generic type, in angle brackets, to
/// follow a reference to it.
pub fn implicit_template_params(ctx: &TypeCtx, id: usize) -> (r: String)
    requires
        ctx.wf(),
        id < ctx.len(),
    ensures
        r@ == implicit_params_text(*ctx, id as int),
{
    let names = used_template_params(ctx, id);
    let carries = match &ctx.types[id].kind {
        TypeKind::Comp(_) | TypeKind::Alias(_) | TypeKind::TemplateAlias(_) | TypeKind::Reference(_)
        | TypeKind::ObjCInterface => true,
        _ => false,
    };
    if carries && names.len() > 0 {
        let mut s = String::from_str("<");
        let j = join_strings(&names, ", ");
        s.append(j.as_str());
        s.append(">");
        s
    } else {
        String::new()
    }
}

fn opaque(t: &TypeItem) -> (r: Result<String, TyError>)
    ensures
        res_view(r) == opaque_text(*t),
{
    match t.layout {
        Some(l) => Ok(blob(l)),
        None => Err(TyError::NoLayoutForOpaqueBlob),
    }
}

fn path(t: &TypeItem) -> (r: String)
    ensures
        r@ == path_text(*t),
{
    join_strings(&t.path, "::")
}

fn alias(ctx: &TypeCtx, id: usize) -> (r: Result<String, TyError>)
    requires
        ctx.wf(),
        id < ctx.len(),
    ensures
        res_view(r) == alias_text(*ctx, ctx.ty(id as int)),
{
    let t = &ctx.types[id];
    let used = used_template_params(ctx, id);
    if t.is_opaque && used.len() > 0 {
        opaque(t)
    } else {
        match type_from_named(&t.name) {
            Some(p) => Ok(p),
            None => Ok(path(t)),
        }
    }
}

/// Renders a type as it is written where it is referred to; fails where
/// only an opaque blob could stand and none can be sized, for an
/// instantiation of an opaque template, and for an unknown calling
/// convention.
pub fn try_to_rust_ty(ctx: &TypeCtx, id: usize) -> (r: Result<String, TyError>)
    requires
        ctx.wf(),
        id < ctx.len(),
    ensures
        res_view(r) == render(*ctx, id as int),
    decreases id, 5int, 0int,
{
    let t = &ctx.types[id];
    proof {
        assert(kind_refs_below(ctx.ty(id as int).kind, id as int));
    }
    match &t.kind {
        TypeKind::Void => Ok(String::from_str("::std::os::raw::c_void")),
        TypeKind::NullPtr => Ok(String::from_str("*const ::std::os::raw::c_void")),
        TypeKind::BlockPointer => Ok(String::from_str("*mut ::std::os::raw::c_void")),
        TypeKind::Int(k) => Ok(String::from_str(int_type(*k))),
        TypeKind::Float(k) => Ok(String::from_str(float_type(*k))),
        TypeKind::Complex(k) => {
            let mut s = if ctx.namespaces { String::from_str("root::") } else { String::new() };
            s.append("__BindgenComplex<");
            s.append(float_type(*k));
            s.append(">");
            proof {
                if !ctx.namespaces {
                    assert(s@ =~= Seq::<char>::empty() + "__BindgenComplex<"@ + float_text(*k) + ">"@);
                }
            }
            Ok(s)
        },
        TypeKind::Array(e, n) => {
            match try_to_rust_ty(ctx, *e) {
                Ok(x) => {
                    let mut s = String::from_str("[");
                    s.append(x.as_str());
                    s.append("; ");
                    push_decimal(&mut s, *n);
                    s.append("usize]");
                    Ok(s)
                },
                Err(err) => Err(err),
            }
        },
        TypeKind::Function(sig) => {
            match abi_name(sig.abi) {
                Some(a) => {
                    let mut s = String::from_str("::std::option::Option<unsafe extern \"");
                    s.append(a);
                    s.append("\" fn(");
                    let args = sig_args(ctx, sig, id);
                    s.append(args.as_str());
                    s.append(")");
                    let ret = sig_ret(ctx, sig.ret, id);
                    s.append(ret.as_str());
                    s.append(">");
                    Ok(s)
                },
                None => Err(TyError::UnknownAbi(abi_code(sig.abi))),
            }
        },
        TypeKind::Pointer(p) => Ok(pointer(ctx, t, *p)),
        TypeKind::Reference(p) => Ok(pointer(ctx, t, *p)),
        TypeKind::Enum => Ok(path(t)),
        TypeKind::Comp(non_type) => {
            if *non_type || (t.is_opaque && t.params.len() > 0) {
                opaque(t)
            } else {
                Ok(path(t))
            }
        },
        TypeKind::Alias(_) => alias(ctx, id),
        TypeKind::TemplateAlias(_) => alias(ctx, id),
        TypeKind::TemplateInstantiation(d, args) => {
            if t.is_opaque || *d >= id || ctx.types[*d].is_opaque || ctx.types[*d].params.len() == 0 {
                Err(TyError::InstantiationOfOpaqueType)
            } else {
                let def = &ctx.types[*d];
                let n = if args.len() < def.params.len() { args.len() } else { def.params.len() };
                let n2 = if n < def.param_used.len() { n } else { def.param_used.len() };
                match inst_arguments(ctx, args, &def.param_used, n2, id) {
                    Ok(list) => {
                        let p = path(def);
                        if list.len() == 0 {
                            Ok(p)
                        } else {
                            let mut s = p;
                            s.append("<");
                            let j = join_strings(&list, ", ");
                            s.append(j.as_str());
                            s.append(">");
                            Ok(s)
                        }
                    },
                    Err(err) => Err(err),
                }
            }
        },
        TypeKind::TypeParam => Ok(t.name.clone()),
        TypeKind::Opaque => opaque(t),
        TypeKind::ObjCSel => Ok(String::from_str("objc::runtime::Sel")),
        TypeKind::ObjCId => Ok(String::from_str("id")),
        TypeKind::ObjCInterface => Ok(String::from_str("id")),
    }
}

/// Renders a type, or an opaque blob of its layout (one byte when the
/// layout is unknown) where it cannot be rendered.
pub fn to_rust_ty_or_opaque(ctx: &TypeCtx, id: usize) -> (r: String)
    requires
        ctx.wf(),
        id < ctx.len(),
    ensures
        r@ == render_or_opaque(*ctx, id as int),
    decreases id, 6int, 0int,
{
    match try_to_rust_ty(ctx, id) {
        Ok(x) => x,
        Err(_) => {
            let l = match ctx.types[id].layout {
                Some(l) => l,
                None => Layout { size: 1, align: 1 },
            };
            blob(l)
        },
    }
}

fn pointer(ctx: &TypeCtx, t: &TypeItem, p: usize) -> (r: String)
    requires
        ctx.wf(),
        p < ctx.len(),
    ensures
        r@ == pointer_text(*ctx, *t, p as int),
    decreases p, 7int, 0int,
{
    let mut inner = to_rust_ty_or_opaque(ctx, p);
    let imp = implicit_template_params(ctx, p);
    inner.append(imp.as_str());
    let c = canonical_type(ctx, p);
    let is_fn = match &ctx.types[c].kind {
        TypeKind::Function(_) => true,
        _ => false,
    };
    if is_fn {
        inner
    } else {
        to_ptr(inner, t.is_const || ctx.types[p].is_const)
    }
}

proof fn inst_args_err_extends(ctx: TypeCtx, args: Seq<usize>, used: Seq<bool>, i: int, n: int, bound: int, e: TyError)
    requires
        0 <= i <= n <= args.len(),
        n <= used.len(),
        inst_args(ctx, args.subrange(0, i), used.subrange(0, i), bound) == Err::<Seq<Seq<char>>, TyError>(e),
    ensures
        inst_args(ctx, args.subrange(0, n), used.subrange(0, n), bound) == Err::<Seq<Seq<char>>, TyError>(e),
    decreases n - i,
{
    if i < n {
        let a = args.subrange(0, i + 1);
        let u = used.subrange(0, i + 1);
        assert(a.drop_last() =~= args.subrange(0, i));
        assert(u.drop_last() =~= used.subrange(0, i));
        inst_args_err_extends(ctx, args, used, i + 1, n, bound, e);
    }
}

fn inst_arguments(ctx: &TypeCtx, args: &Vec<usize>, used: &Vec<bool>, n: usize, bound: usize)
    -> (r: Result<Vec<String>, TyError>)
    requires
        ctx.wf(),
        bound <= ctx.len(),
        n <= args.len(),
        n <= used.len(),
        forall|i: int| 0 <= i < args.len() ==> #[trigger] args@[i] < bound,
    ensures
        match r {
            Ok(list) => inst_args(*ctx, args@.subrange(0, n as int), used@.subrange(0, n as int), bound as int)
                == Ok::<Seq<Seq<char>>, TyError>(views(list@)),
            Err(e) => inst_args(*ctx, args@.subrange(0, n as int), used@.subrange(0, n as int), bound as int)
                == Err::<Seq<Seq<char>>, TyError>(e),
        },
    decreases bound, 0int, 0int,
{
    let mut out: Vec<String> = Vec::new();
    let mut i: usize = 0;
    proof {
        assert(views(out@) =~= Seq::<Seq<char>>::empty());
    }
    while i < n
        invariant
            i <= n,
            n <= args.len(),
            n <= used.len(),
            ctx.wf(),
            bound <= ctx.len(),
            forall|k: int| 0 <= k < args.len() ==> #[trigger] args@[k] < bound,
            inst_args(*ctx, args@.subrange(0, i as int), used@.subrange(0, i as int), bound as int)
                == Ok::<Seq<Seq<char>>, TyError>(views(out@)),
        decreases n - i,
    {
        let ghost a = args@.subrange(0, i + 1);
        let ghost u = used@.subrange(0, i + 1);
        proof {
            assert(a.drop_last() =~= args@.subrange(0, i as int));
            assert(u.drop_last() =~= used@.subrange(0, i as int));
            assert(a.last() == args@[i as int]);
            assert(u.last() == used@[i as int]);
        }
        if used[i] {
            let x = args[i];
            match try_to_rust_ty(ctx, x) {
                Ok(mut ty) => {
                    let imp = implicit_template_params(ctx, x);
                    ty.append(imp.as_str());
                    let ghost prev = out@;
                    out.push(ty);
                    proof {
                        assert(views(out@) =~= views(prev).push(ty@));
                    }
                },
                Err(e) => {
                    proof {
                        inst_args_err_extends(*ctx, args@, used@, i + 1, n as int, bound as int, e);
                    }
                    return Err(e);
                },
            }
        }
        i = i + 1;
    }
    Ok(out)
}

fn arg_type(ctx: &TypeCtx, a: usize, bound: usize) -> (r: String)
    requires
        ctx.wf(),
        a < bound,
        bound <= ctx.len(),
    ensures
        r@ == arg_type_text(*ctx, a as int, bound as int),
    decreases bound, 1int, 0int,
{
    let c = canonical_type(ctx, a);
    proof {
        assert(kind_refs_below(ctx.ty(c as int).kind, c as int));
    }
    match &ctx.types[c].kind {
        TypeKind::Array(e, _) => {
            let inner = to_rust_ty_or_opaque(ctx, *e);
            to_ptr(inner, ctx.types[*e].is_const)
        },
        TypeKind::Pointer(p) => {
            let pc = canonical_type(ctx, *p);
            let objc = match &ctx.types[pc].kind {
                TypeKind::ObjCInterface => true,
                _ => false,
            };
            if objc { String::from_str("id") } else { to_rust_ty_or_opaque(ctx, a) }
        },
        _ => to_rust_ty_or_opaque(ctx, a),
    }
}

pub(crate) fn arg_items(ctx: &TypeCtx, sig: &FunctionSig, bound: usize) -> (r: Vec<String>)
    requires
        ctx.wf(),
        bound <= ctx.len(),
        forall|i: int| 0 <= i < sig.args.len() ==> (#[trigger] sig.args@[i]).1 < bound,
    ensures
        views(r@) == arg_list(*ctx, sig.args@, sig.args.len() as int, bound as int),
    decreases bound, 2int, 0int,
{
    let mut out: Vec<String> = Vec::new();
    let mut unnamed: u64 = 0;
    let mut k: usize = 0;
    proof {
        assert(views(out@) =~= Seq::<Seq<char>>::empty());
    }
    while k < sig.args.len()
        invariant
            k <= sig.args.len(),
            ctx.wf(),
            bound <= ctx.len(),
            forall|i: int| 0 <= i < sig.args.len() ==> (#[trigger] sig.args@[i]).1 < bound,
            unnamed == unnamed_before(sig.args@, k as int),
            unnamed <= k,
            views(out@) == arg_list(*ctx, sig.args@, k as int, bound as int),
        decreases sig.args.len() - k,
    {
        let mut item = match &sig.args[k].0 {
            Some(n) => n.clone(),
            None => {
                unnamed = unnamed + 1;
                let mut s = String::from_str("arg");
                push_decimal(&mut s, unnamed);
                s
            },
        };
        item.append(": ");
        proof {
            assert(sig.args@[k as int].1 < bound);
        }
        let ty = arg_type(ctx, sig.args[k].1, bound);
        item.append(ty.as_str());
        let ghost prev = out@;
        out.push(item);
        proof {
            assert(views(out@) =~= views(prev).push(item@));
        }
        k = k + 1;
    }
    out
}

pub(crate) fn sig_args(ctx: &TypeCtx, sig: &FunctionSig, bound: usize) -> (r: String)
    requires
        ctx.wf(),
        bound <= ctx.len(),
        forall|i: int| 0 <= i < sig.args.len() ==> (#[trigger] sig.args@[i]).1 < bound,
    ensures
        r@ == args_text(*ctx, sig.args@, sig.variadic, bound as int),
    decreases bound, 3int, 0int,
{
    let mut list = arg_items(ctx, sig, bound);
    if sig.variadic {
        let ghost prev = list@;
        list.push(String::from_str("..."));
        proof {
            assert(views(list@) =~= views(prev).push("..."@));
        }
    }
    join_strings(&list, ", ")
}

pub(crate) fn sig_ret(ctx: &TypeCtx, r: usize, bound: usize) -> (s: String)
    requires
        ctx.wf(),
        r < bound,
        bound <= ctx.len(),
    ensures
        s@ == ret_text(*ctx, r as int, bound as int),
    decreases bound, 0int, 0int,
{
    match &ctx.types[r].kind {
        TypeKind::Void => String::new(),
        _ => {
            let mut s = String::from_str(" -> ");
            let t = to_rust_ty_or_opaque(ctx, r);
            s.append(t.as_str());
            s
        },
    }
}


/// Each of `ps` rendered, or the first error.
pub open spec fn render_all(ctx: TypeCtx, ps: Seq<usize>) -> Result<Seq<Seq<char>>, TyError>
    decreases ps.len(),
{
    if ps.len() == 0 {
        Ok(Seq::empty())
    } else {
        match render_all(ctx, ps.drop_last()) {
            Ok(list) => match render(ctx, ps.last() as int) {
                Ok(x) => Ok(list.push(x)),
                Err(e) => Err(e),
            },
            Err(e) => Err(e),
        }
    }
}

/// The path of a type followed by the given template arguments.
pub open spec fn templated_path(ctx: TypeCtx, id: int, ps: Seq<usize>) -> Result<Seq<char>, TyError> {
    match render_all(ctx, ps) {
        Ok(list) => if list.len() == 0 {
            Ok(path_text(ctx.ty(id)))
        } else {
            Ok(path_text(ctx.ty(id)) + "<"@ + join(list, ", "@) + ">"@)
        },
        Err(e) => Err(e),
    }
}

proof fn render_all_err_extends(ctx: TypeCtx, ps: Seq<usize>, i: int, e: TyError)
    requires
        0 <= i <= ps.len(),
        render_all(ctx, ps.subrange(0, i)) == Err::<Seq<Seq<char>>, TyError>(e),
    ensures
        render_all(ctx, ps) == Err::<Seq<Seq<char>>, TyError>(e),
    decreases ps.len() - i,
{
    if i < ps.len() {
        assert(ps.subrange(0, i + 1).drop_last() =~= ps.subrange(0, i));
        render_all_err_extends(ctx, ps, i + 1, e);
    } else {
        assert(ps.subrange(0, i) =~= ps);
    }
}

/// The path of the type `id` with the template arguments `params`; fails
/// with the first argument that cannot be rendered.
pub fn build_templated_path(ctx: &TypeCtx, id: usize, params: &Vec<usize>) -> (r: Result<String, TyError>)
    requires
        ctx.wf(),
        id < ctx.len(),
        forall|i: int| 0 <= i < params.len() ==> #[trigger] params@[i] < ctx.len(),
    ensures
        res_view(r) == templated_path(*ctx, id as int, params@),
{
    let mut list: Vec<String> = Vec::new();
    let mut i: usize = 0;
    proof {
        assert(views(list@) =~= Seq::<Seq<char>>::empty());
        assert(params@.subrange(0, 0) =~= Seq::<usize>::empty());
    }
    while i < params.len()
        invariant
            i <= params.len(),
            ctx.wf(),
            forall|k: int| 0 <= k < params.len() ==> #[trigger] params@[k] < ctx.len(),
            render_all(*ctx, params@.subrange(0, i as int)) == Ok::<Seq<Seq<char>>, TyError>(views(list@)),
        decreases params.len() - i,
    {
        proof {
            assert(params@.subrange(0, i + 1).drop_last() =~= params@.subrange(0, i as int));
            assert(params@.subrange(0, i + 1).last() == params@[i as int]);
        }
        match try_to_rust_ty(ctx, params[i]) {
            Ok(x) => {
                let ghost prev = list@;
                list.push(x);
                proof {
                    assert(views(list@) =~= views(prev).push(x@));
                }
            },
            Err(e) => {
                proof {
                    render_all_err_extends(*ctx, params@, i + 1, e);
                }
                return Err(e);
            },
        }
        i = i + 1;
    }
    proof {
        assert(params@.subrange(0, i as int) =~= params@);
    }
    let p = path(&ctx.types[id]);
    if list.len() == 0 {
        Ok(p)
    } else {
        let mut s = p;
        s.append("<");
        let j = join_strings(&list, ", ");
        s.append(j.as_str());
        s.append(">");
        Ok(s)
    }
}

} // verus!
