use vstd::prelude::*;
use crate::layout::Layout;

verus! {

/// The C integer kinds.
#[derive(Clone, Copy, Debug, PartialEq, Eq, Structural)]
pub enum IntKind {
    Bool,
    Char,
    SChar,
    UChar,
    Short,
    UShort,
    Int,
    UInt,
    Long,
    ULong,
    LongLong,
    ULongLong,
    I8,
    U8,
    I16,
    U16,
    I32,
    U32,
    I64,
    U64,
    I128,
    U128,
}

/// The C floating-point kinds.
#[derive(Clone, Copy, Debug, PartialEq, Eq, Structural)]
pub enum FloatKind {
    Float,
    Double,
    LongDouble,
}

/// Calling conventions.
#[derive(Clone, Copy, Debug, PartialEq, Eq, Structural)]
pub enum Abi {
    C,
    Stdcall,
    Fastcall,
    ThisCall,
    Aapcs,
    Win64,
    /// A convention with no name here, by its code in the parser.
    Unknown(u32),
}

/// A function signature: return type, arguments (name and type), calling
/// convention, and whether it takes further arguments.
#[derive(Debug)]
pub struct FunctionSig {
    pub ret: usize,
    pub args: Vec<(Option<String>, usize)>,
    pub abi: Abi,
    pub variadic: bool,
}

/// The kinds of type. A `usize` inside a kind is the position of another
/// type in the same context.
#[derive(Debug)]
pub enum TypeKind {
    Void,
    NullPtr,
    BlockPointer,
    Int(IntKind),
    Float(FloatKind),
    Complex(FloatKind),
    /// Element type and length.
    Array(usize, u64),
    Function(FunctionSig),
    Pointer(usize),
    Reference(usize),
    Enum,
    /// A struct, class or union; the flag says whether it has template
    /// parameters that are not types.
    Comp(bool),
    Alias(usize),
    TemplateAlias(usize),
    /// The template definition and the template arguments.
    TemplateInstantiation(usize, Vec<usize>),
    TypeParam,
    Opaque,
    ObjCId,
    ObjCSel,
    ObjCInterface,
}

/// A type of the context.
#[derive(Debug)]
pub struct TypeItem {
    pub kind: TypeKind,
    /// The canonical name: the identifier of a type parameter, the spelling
    /// of an alias.
    pub name: String,
    /// The path, from the emitting scope, by which the type is referred to.
    pub path: Vec<String>,
    pub is_const: bool,
    pub is_opaque: bool,
    pub layout: Option<Layout>,
    /// The type's own template parameters, in order.
    pub params: Vec<usize>,
    /// For each of `params`, whether the type's definition uses it.
    pub param_used: Vec<bool>,
}

/// The types of the parsed headers, each referred to by its position.
#[derive(Debug)]
pub struct TypeCtx {
    pub types: Vec<TypeItem>,
    /// Whether namespaces are emitted as nested scopes, so that helper
    /// types are reached through the root module.
    pub namespaces: bool,
}

/// The types a type refers to in a way that rendering follows: each comes
/// before it in the context, so rendering ends.
pub open spec fn kind_refs_below(k: TypeKind, id: int) -> bool {
    match k {
        TypeKind::Array(t, _) => t < id,
        TypeKind::Function(sig) => sig.ret < id && forall|i: int| 0 <= i < sig.args.len() ==> (#[trigger] sig.args@[i]).1 < id,
        TypeKind::Pointer(t) => t < id,
        TypeKind::Reference(t) => t < id,
        TypeKind::Alias(t) => t < id,
        TypeKind::TemplateAlias(t) => t < id,
        TypeKind::TemplateInstantiation(d, args) => d < id && forall|i: int| 0 <= i < args.len() ==> #[trigger] args@[i] < id,
        _ => true,
    }
}

impl TypeCtx {
    pub open spec fn len(&self) -> int {
        self.types.len() as int
    }

    pub open spec fn ty(&self, id: int) -> TypeItem {
        self.types@[id]
    }

    /// Every reference points to an earlier type, and each type has one
    /// used-flag per template parameter, each parameter being a type of the
    /// context.
    pub open spec fn wf(&self) -> bool {
        forall|id: int| 0 <= id < self.len() ==> {
            &&& kind_refs_below((#[trigger] self.ty(id)).kind, id)
            &&& self.ty(id).params.len() == self.ty(id).param_used.len()
            &&& forall|j: int| 0 <= j < self.ty(id).params.len() ==> #[trigger] self.ty(id).params@[j] < self.len()
        }
    }
}


fn args_below(args: &Vec<(Option<String>, usize)>, id: usize) -> (r: bool)
    ensures
        r == forall|i: int| 0 <= i < args.len() ==> (#[trigger] args@[i]).1 < id,
{
    let mut i: usize = 0;
    while i < args.len()
        invariant
            i <= args.len(),
            forall|j: int| 0 <= j < i ==> (#[trigger] args@[j]).1 < id,
        decreases args.len() - i,
    {
        if args[i].1 >= id {
            return false;
        }
        i = i + 1;
    }
    true
}

fn ids_below(ids: &Vec<usize>, id: usize) -> (r: bool)
    ensures
        r == forall|i: int| 0 <= i < ids.len() ==> #[trigger] ids@[i] < id,
{
    let mut i: usize = 0;
    while i < ids.len()
        invariant
            i <= ids.len(),
            forall|j: int| 0 <= j < i ==> #[trigger] ids@[j] < id,
        decreases ids.len() - i,
    {
        if ids[i] >= id {
            return false;
        }
        i = i + 1;
    }
    true
}

fn refs_below(k: &TypeKind, id: usize) -> (r: bool)
    ensures
        r == kind_refs_below(*k, id as int),
{
    match k {
        TypeKind::Array(t, _) => *t < id,
        TypeKind::Function(sig) => sig.ret < id && args_below(&sig.args, id),
        TypeKind::Pointer(t) => *t < id,
        TypeKind::Reference(t) => *t < id,
        TypeKind::Alias(t) => *t < id,
        TypeKind::TemplateAlias(t) => *t < id,
        TypeKind::TemplateInstantiation(d, args) => *d < id && ids_below(args, id),
        _ => true,
    }
}

fn item_ok(ctx: &TypeCtx, id: usize) -> (r: bool)
    requires
        id < ctx.len(),
    ensures
        r == ({
            &&& kind_refs_below(ctx.ty(id as int).kind, id as int)
            &&& ctx.ty(id as int).params.len() == ctx.ty(id as int).param_used.len()
            &&& forall|j: int| 0 <= j < ctx.ty(id as int).params.len() ==> #[trigger] ctx.ty(id as int).params@[j] < ctx.len()
        }),
{
    let t = &ctx.types[id];
    if !refs_below(&t.kind, id) || t.params.len() != t.param_used.len() {
        return false;
    }
    let mut j: usize = 0;
    while j < t.params.len()
        invariant
            j <= t.params.len(),
            t == ctx.ty(id as int),
            forall|k: int| 0 <= k < j ==> #[trigger] t.params@[k] < ctx.len(),
        decreases t.params.len() - j,
    {
        if t.params[j] >= ctx.types.len() {
            return false;
        }
        j = j + 1;
    }
    true
}

impl TypeCtx {
    /// Whether the context is well formed.
    pub fn check(&self) -> (r: bool)
        ensures
            r == self.wf(),
    {
        let mut id: usize = 0;
        while id < self.types.len()
            invariant
                id <= self.types.len(),
                forall|k: int| 0 <= k < id ==> {
                    &&& kind_refs_below((#[trigger] self.ty(k)).kind, k)
                    &&& self.ty(k).params.len() == self.ty(k).param_used.len()
                    &&& forall|j: int| 0 <= j < self.ty(k).params.len() ==> #[trigger] self.ty(k).params@[j] < self.len()
                },
            decreases self.types.len() - id,
        {
            if !item_ok(self, id) {
                return false;
            }
            id = id + 1;
        }
        true
    }
}

} // verus!
