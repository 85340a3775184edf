use vstd::prelude::*;
use crate::bitfield::views;
use crate::ir::{kind_refs_below, FunctionSig, TypeCtx, TypeKind};
use crate::result::CodegenResult;
use crate::tokens::{tokens_of, tokens_text};
use crate::text::{dec, dec_injective, dec_len, push_decimal};
use crate::types::{
    abi_name, abi_text, arg_list, args_text, canonical, canonical_type, join, join_strings, ret_text, TyError,
};

verus! {

/// A function declaration.
#[derive(Debug)]
pub struct FunctionDecl {
    /// The name in the C source.
    pub name: String,
    pub canonical_name: String,
    pub mangled_name: Option<String>,
    pub comment: Option<String>,
    /// Whether the function is a template (its instantiations are open).
    pub has_template_params: bool,
    /// The type of the function; through aliases it is a function type.
    pub signature: usize,
}

/// The signature a declaration's type resolves to.
pub open spec fn sig_of(ctx: TypeCtx, f: FunctionDecl) -> FunctionSig {
    match ctx.ty(canonical(ctx, f.signature as int)).kind {
        TypeKind::Function(sig) => sig,
        _ => arbitrary(),
    }
}

pub open spec fn has_fn_sig(ctx: TypeCtx, f: FunctionDecl) -> bool {
    &&& 0 <= f.signature < ctx.len()
    &&& ctx.ty(canonical(ctx, f.signature as int)).kind is Function
}

/// The symbol that keeps a second declaration of the same function out:
/// the mangled name, else the canonical one.
pub open spec fn symbol_of(f: FunctionDecl) -> Seq<char> {
    match f.mangled_name {
        Some(m) => m@,
        None => f.canonical_name@,
    }
}

/// The identifier of the `n`th overload of `name`: the name, then the
/// number from the second overload on.
pub open spec fn overload_ident(name: Seq<char>, n: nat) -> Seq<char> {
    if n == 0 { name } else { name + dec(n) }
}

pub open spec fn link_name_text(symbol: Seq<char>) -> Seq<char> {
    "#[link_name = \""@ + symbol + "\"]"@
}

/// The attributes of an extern function emitted as overload `n`: its
/// comment, and the symbol it links to when that differs from the name it
/// is emitted under (always, from the second overload on).
pub open spec fn fn_attrs(f: FunctionDecl, n: nat) -> Seq<Seq<char>> {
    let doc: Seq<Seq<char>> = match f.comment {
        Some(c) => seq!["/// "@ + c@],
        None => Seq::empty(),
    };
    match f.mangled_name {
        Some(m) => doc.push(link_name_text(m@)),
        None => if f.name@ != f.canonical_name@ || n > 0 { doc.push(link_name_text(f.name@)) } else { doc },
    }
}


/// What function emission depends on: which symbols were declared, and how
/// many overloads of each canonical name were emitted.
pub struct FnState {
    pub seen: spec_fn(Seq<char>) -> bool,
    pub counts: spec_fn(Seq<char>) -> nat,
}

pub open spec fn fn_state(r: CodegenResult) -> FnState {
    FnState { seen: |s: Seq<char>| r.seen_fn(s), counts: |n: Seq<char>| r.overloads(n) }
}

/// One function handled from state `st`: the next state, what is emitted,
/// and whether the calling convention is unknown (then nothing changes).
pub open spec fn fn_step(ctx: TypeCtx, st: FnState, f: FunctionDecl) -> (FnState, Seq<Seq<char>>, bool) {
    let sym = symbol_of(f);
    let canon = f.canonical_name@;
    if f.has_template_params || (st.seen)(sym) {
        (st, Seq::empty(), false)
    } else if abi_text(sig_of(ctx, f).abi) is None {
        (st, Seq::empty(), true)
    } else {
        (FnState {
            seen: |s: Seq<char>| (st.seen)(s) || s == sym,
            counts: |n: Seq<char>| if n == canon { (st.counts)(n) + 1 } else { (st.counts)(n) },
        }, seq![function_text(ctx, f, (st.counts)(canon))], false)
    }
}

/// A function emitted into `r` adds its extern block unless it is a
/// template or its symbol was declared.
pub open spec fn function_output(ctx: TypeCtx, r: CodegenResult, f: FunctionDecl) -> Seq<Seq<char>> {
    if f.has_template_params || r.seen_fn(symbol_of(f)) {
        Seq::empty()
    } else {
        seq![function_text(ctx, f, r.overloads(f.canonical_name@))]
    }
}

/// The extern block of a function emitted as overload `n` of its name.
pub open spec fn function_text(ctx: TypeCtx, f: FunctionDecl, n: nat) -> Seq<char> {
    let sig = sig_of(ctx, f);
    let sid = canonical(ctx, f.signature as int);
    let attrs = fn_attrs(f, n);
    "extern \""@ + abi_text(sig.abi).unwrap() + "\" {\n"@
        + (if attrs.len() > 0 { join(attrs, "\n"@) + "\n"@ } else { Seq::empty() })
        + "pub fn "@ + overload_ident(f.canonical_name@, n) + "("@ + args_text(ctx, sig.args@, sig.variadic, sid)
        + ")"@ + ret_text(ctx, sig.ret as int, sid) + ";\n}"@
}

pub(crate) fn link_name(symbol: &String) -> (r: String)
    ensures
        r@ == link_name_text(symbol@),
{
    let mut s = String::from_str("#[link_name = \"");
    s.append(symbol.as_str());
    s.append("\"]");
    s
}

fn push_text(v: &mut Vec<String>, x: String)
    ensures
        views(final(v)@) == views(old(v)@).push(x@),
{
    let ghost prev = v@;
    v.push(x);
    proof {
        assert(views(v@) =~= views(prev).push(x@));
    }
}

fn attributes(f: &FunctionDecl, n: u32) -> (r: Vec<String>)
    ensures
        views(r@) == fn_attrs(*f, n as nat),
{
    let mut attrs: Vec<String> = Vec::new();
    proof {
        assert(views(attrs@) =~= Seq::<Seq<char>>::empty());
    }
    match &f.comment {
        Some(c) => {
            let mut d = String::from_str("/// ");
            d.append(c.as_str());
            push_text(&mut attrs, d);
        },
        None => {},
    }
    match &f.mangled_name {
        Some(m) => push_text(&mut attrs, link_name(m)),
        None => {
            if f.name != f.canonical_name || n > 0 {
                push_text(&mut attrs, link_name(&f.name));
            }
        },
    }
    attrs
}

/// Emits a function as an extern declaration. A template function, and a
/// function whose symbol was already declared, emit nothing; an unknown
/// calling convention is an error and emits nothing. Otherwise the symbol is
/// recorded, and the function is emitted under its canonical name with the
/// number of earlier overloads of that name after it.
pub fn codegen_function(ctx: &TypeCtx, result: &mut CodegenResult, f: &FunctionDecl) -> (r: Result<(), TyError>)
    requires
        ctx.wf(),
        has_fn_sig(*ctx, *f),
        old(result).wf(),
        old(result).overloads(f.canonical_name@) < u32::MAX,
    ensures
        final(result).wf(),
        final(result).items_seen == old(result).items_seen,
        old(result).items_text().is_prefix_of(final(result).items_text()),
        r is Err <==> (!f.has_template_params && !old(result).seen_fn(symbol_of(*f))
            && abi_text(sig_of(*ctx, *f).abi) is None),
        r is Err ==> r == Err::<(), TyError>(TyError::UnknownAbi(sig_of(*ctx, *f).abi->Unknown_0)),
        fn_state(*final(result)) == fn_step(*ctx, fn_state(*old(result)), *f).0,
        r is Ok ==> final(result).items_text() == old(result).items_text() + function_output(*ctx, *old(result), *f),
        (f.has_template_params || old(result).seen_fn(symbol_of(*f)) || r is Err) ==> *final(result) == *old(result),
        (r is Ok && !f.has_template_params && !old(result).seen_fn(symbol_of(*f))) ==> {
            &&& final(result).items_text() == old(result).items_text().push(
                function_text(*ctx, *f, old(result).overloads(f.canonical_name@)))
            &&& final(result).seen_fn(symbol_of(*f))
            &&& forall|s: Seq<char>| old(result).seen_fn(s) ==> final(result).seen_fn(s)
            &&& final(result).overloads(f.canonical_name@) == old(result).overloads(f.canonical_name@) + 1
            &&& forall|n: Seq<char>| n != f.canonical_name@ ==> final(result).overloads(n) == old(result).overloads(n)
            &&& final(result).items_seen == old(result).items_seen
            &&& final(result).vars_seen == old(result).vars_seen
        },
{
    if f.has_template_params {
        proof {
            assert(old(result).items_text() + Seq::<Seq<char>>::empty() =~= old(result).items_text());
        }
        return Ok(());
    }
    let symbol = match &f.mangled_name {
        Some(m) => m,
        None => &f.canonical_name,
    };
    if result.seen_function(symbol) {
        proof {
            assert(old(result).items_text() + Seq::<Seq<char>>::empty() =~= old(result).items_text());
        }
        return Ok(());
    }
    let sid = canonical_type(ctx, f.signature);
    proof {
        assert(kind_refs_below(ctx.ty(sid as int).kind, sid as int));
    }
    let sig = match &ctx.types[sid].kind {
        TypeKind::Function(sig) => sig,
        _ => {
            return Ok(());
        },
    };
    let abi = match abi_name(sig.abi) {
        Some(a) => a,
        None => {
            return Err(TyError::UnknownAbi(crate::types::abi_code(sig.abi)));
        },
    };
    result.saw_function(symbol);
    let ghost mid = *result;
    proof {
        assert forall|s: Seq<char>| old(result).seen_fn(s) implies mid.seen_fn(s) by {
            let i = choose|i: int| 0 <= i < old(result).functions_seen@.len() && #[trigger] old(result).functions_seen@[i]@ == s;
            assert(mid.functions_seen@[i] == old(result).functions_seen@[i]);
        }
        assert(mid.functions_seen@[mid.functions_seen@.len() - 1]@ == symbol@);
        assert(mid.overload_counters == old(result).overload_counters);
        assert(mid.overloads(f.canonical_name@) == old(result).overloads(f.canonical_name@));
    }
    let times_seen = result.overload_number(&f.canonical_name);
    let ghost after_count = *result;
    let mut ident = f.canonical_name.clone();
    if times_seen > 0 {
        push_decimal(&mut ident, times_seen as u64);
    }
    let attrs = attributes(f, times_seen);
    let mut text = String::from_str("extern \"");
    text.append(abi);
    text.append("\" {\n");
    if attrs.len() > 0 {
        let j = join_strings(&attrs, "\n");
        text.append(j.as_str());
        text.append("\n");
    }
    text.append("pub fn ");
    text.append(ident.as_str());
    text.append("(");
    let args = crate::types::sig_args(ctx, sig, sid);
    text.append(args.as_str());
    text.append(")");
    let ret = crate::types::sig_ret(ctx, sig.ret, sid);
    text.append(ret.as_str());
    text.append(";\n}");
    proof {
        assert(ident@ == overload_ident(f.canonical_name@, old(result).overloads(f.canonical_name@)));
        assert(text@ =~= function_text(*ctx, *f, old(result).overloads(f.canonical_name@)));
    }
    let t = tokens_of(text.as_str());
    result.push_item(t);
    proof {
        assert(result.functions_seen == mid.functions_seen);
        assert(result.seen_fn(symbol@));
        assert(result.items_text() == old(result).items_text().push(
            function_text(*ctx, *f, old(result).overloads(f.canonical_name@))));
        assert(forall|s: Seq<char>| old(result).seen_fn(s) ==> result.seen_fn(s));
        assert(result.overload_counters == after_count.overload_counters);
        assert(result.overloads(f.canonical_name@) == after_count.overloads(f.canonical_name@));
        assert forall|n: Seq<char>| n != f.canonical_name@ implies result.overloads(n) == old(result).overloads(n) by {
            assert(result.overloads(n) == after_count.overloads(n));
            assert(mid.overloads(n) == old(result).overloads(n));
        }
        assert forall|x: Seq<char>| result.seen_fn(x) implies old(result).seen_fn(x) || x == symbol@ by {
            let i = choose|i: int| 0 <= i < result.functions_seen@.len() && #[trigger] result.functions_seen@[i]@ == x;
            if i < old(result).functions_seen@.len() {
                assert(result.functions_seen@[i] == old(result).functions_seen@[i]);
            }
        }
        let next = fn_step(*ctx, fn_state(*old(result)), *f).0;
        assert(fn_state(*result).seen =~= next.seen);
        assert(fn_state(*result).counts =~= next.counts);
        assert(result.items_text() =~= old(result).items_text() + function_output(*ctx, *old(result), *f));
    }
    Ok(())
}

/// The arguments of the function type `id`, `name: type` each.
pub fn fnsig_arguments(ctx: &TypeCtx, id: usize) -> (r: Vec<String>)
    requires
        ctx.wf(),
        id < ctx.len(),
        ctx.ty(id as int).kind is Function,
    ensures
        ({
            let sig = ctx.ty(id as int).kind->Function_0;
            views(r@) == arg_list(*ctx, sig.args@, sig.args.len() as int, id as int)
        }),
{
    proof {
        assert(kind_refs_below(ctx.ty(id as int).kind, id as int));
    }
    match &ctx.types[id].kind {
        TypeKind::Function(sig) => crate::types::arg_items(ctx, sig, id),
        _ => Vec::new(),
    }
}

/// ` -> T` for the return type of the function type `id`; nothing for
/// `void`.
pub fn fnsig_return_ty(ctx: &TypeCtx, id: usize) -> (r: String)
    requires
        ctx.wf(),
        id < ctx.len(),
        ctx.ty(id as int).kind is Function,
    ensures
        r@ == ret_text(*ctx, (ctx.ty(id as int).kind->Function_0).ret as int, id as int),
{
    proof {
        assert(kind_refs_below(ctx.ty(id as int).kind, id as int));
    }
    match &ctx.types[id].kind {
        TypeKind::Function(sig) => crate::types::sig_ret(ctx, sig.ret, id),
        _ => String::new(),
    }
}


/// The overloads of one name are emitted under pairwise different
/// identifiers, the first under the name itself.
pub proof fn overload_identifiers_unique(name: Seq<char>, i: nat, j: nat)
    ensures
        overload_ident(name, 0) == name,
        i != j ==> overload_ident(name, i) != overload_ident(name, j),
{
    if i != j && overload_ident(name, i) == overload_ident(name, j) {
        dec_len(i);
        dec_len(j);
        if i == 0 {
            assert(overload_ident(name, j).len() > name.len());
        } else if j == 0 {
            assert(overload_ident(name, i).len() > name.len());
        } else {
            assert(dec(i) =~= overload_ident(name, i).subrange(name.len() as int, overload_ident(name, i).len() as int));
            assert(dec(j) =~= overload_ident(name, j).subrange(name.len() as int, overload_ident(name, j).len() as int));
            dec_injective(i, j);
        }
    }
}

} // verus!
