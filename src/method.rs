use vstd::prelude::*;
use crate::bitfield::views;
use crate::function::{codegen_function, fn_state, fn_step, function_output, has_fn_sig, overload_ident, sig_of, symbol_of, FunctionDecl};
use crate::ir::{kind_refs_below, TypeCtx, TypeKind};
use crate::result::{CodegenResult, NameCounts};
use crate::text::{dec, push_decimal};
use crate::types::{arg_list, arg_name, canonical, canonical_type, join, join_strings, ret_text, unnamed_before, TyError};

verus! {

#[derive(Clone, Copy, Debug, PartialEq, Eq, Structural)]
pub enum MethodKind {
    Constructor,
    Destructor,
    VirtualDestructor,
    Static,
    Normal,
    Virtual,
}

/// A C++ method: its kind, whether it is `const`, and the function that
/// implements it (with the object as first argument, except for static
/// methods).
#[derive(Debug)]
pub struct MethodDecl {
    pub kind: MethodKind,
    pub is_const: bool,
    pub function: FunctionDecl,
}

pub open spec fn is_virtual(k: MethodKind) -> bool {
    k == MethodKind::Virtual || k == MethodKind::VirtualDestructor
}

/// `new` for a constructor, `destruct` for a destructor, else the
/// function's name.
pub open spec fn method_base_name(m: MethodDecl) -> Seq<char> {
    if m.kind == MethodKind::Constructor { "new"@ }
    else if m.kind == MethodKind::Destructor { "destruct"@ }
    else { m.function.name@ }
}

/// The names by which the arguments are passed on.
pub open spec fn arg_names(args: Seq<(Option<String>, usize)>) -> Seq<Seq<char>> {
    Seq::new(args.len(), |i: int| arg_name(args, i))
}

/// The wrapper of a method, the `n`th of its name in the composite: the
/// object becomes `&self` (`&mut self` unless the method is `const`); a
/// constructor takes no object, makes one, passes its address and returns
/// it.
pub open spec fn wrapper_text(ctx: TypeCtx, m: MethodDecl, n: nat) -> Seq<char> {
    let f = m.function;
    let sig = sig_of(ctx, f);
    let sid = canonical(ctx, f.signature as int);
    let is_ctor = m.kind == MethodKind::Constructor;
    let is_static = m.kind == MethodKind::Static;
    let args0 = arg_list(ctx, sig.args@, sig.args.len() as int, sid);
    let exprs0 = arg_names(sig.args@);
    let args1 = if !is_static && !is_ctor && args0.len() > 0 {
        args0.update(0, if m.is_const { "&self"@ } else { "&mut self"@ })
    } else {
        args0
    };
    let args = if is_ctor && args1.len() > 0 { args1.drop_first() } else { args1 };
    let ret = if is_ctor { " -> Self"@ } else { ret_text(ctx, sig.ret as int, sid) };
    let exprs = if is_ctor && exprs0.len() > 0 {
        exprs0.update(0, "&mut __bindgen_tmp"@)
    } else if !is_static && exprs0.len() > 0 {
        exprs0.update(0, "self"@)
    } else {
        exprs0
    };
    let call = f.canonical_name@ + "("@ + join(exprs, ", "@) + ")"@;
    let stmts = if is_ctor {
        seq!["let mut __bindgen_tmp = ::std::mem::uninitialized()"@, call, "__bindgen_tmp"@]
    } else {
        seq![call]
    };
    "#[inline]\npub unsafe fn "@ + overload_ident(method_base_name(m), n) + "("@ + join(args, ", "@) + ")"@ + ret
        + " {\n"@ + join(stmts, "; "@) + "\n}"@
}

pub(crate) fn names_of_args(args: &Vec<(Option<String>, usize)>) -> (r: Vec<String>)
    ensures
        views(r@) == arg_names(args@),
{
    let mut out: Vec<String> = Vec::new();
    let mut unnamed: u64 = 0;
    let mut k: usize = 0;
    while k < args.len()
        invariant
            k <= args.len(),
            unnamed == unnamed_before(args@, k as int),
            unnamed <= k,
            views(out@) =~= Seq::new(k as nat, |i: int| arg_name(args@, i)),
        decreases args.len() - k,
    {
        let item = match &args[k].0 {
            Some(n) => n.clone(),
            None => {
                unnamed = unnamed + 1;
                let mut s = String::from_str("arg");
                push_decimal(&mut s, unnamed);
                s
            },
        };
        let ghost prev = out@;
        out.push(item);
        proof {
            assert(views(out@) =~= views(prev).push(item@));
            assert(item@ == arg_name(args@, k as int));
        }
        k = k + 1;
    }
    out
}

/// Emits a method: first its function as an extern declaration (as
/// `codegen_function` does), then, unless the method is virtual or
/// variadic, a wrapper among `methods`, numbered by how many methods of the
/// same name the composite already has.
pub fn codegen_method(ctx: &TypeCtx, result: &mut CodegenResult, names: &mut NameCounts,
    methods: &mut Vec<String>, m: &MethodDecl) -> (r: Result<(), TyError>)
    requires
        ctx.wf(),
        has_fn_sig(*ctx, m.function),
        old(result).wf(),
        old(result).overloads(m.function.canonical_name@) < u32::MAX,
        old(names).wf(),
        old(names).count(method_base_name(*m)) < u32::MAX,
    ensures
        final(result).wf(),
        final(result).items_seen == old(result).items_seen,
        old(result).items_text().is_prefix_of(final(result).items_text()),
        final(names).wf(),
        r is Err <==> (!is_virtual(m.kind) && fn_step(*ctx, fn_state(*old(result)), m.function).2),
        r is Err ==> r == Err::<(), TyError>(TyError::UnknownAbi(sig_of(*ctx, m.function).abi->Unknown_0)),
        is_virtual(m.kind) ==> *final(result) == *old(result),
        !is_virtual(m.kind) ==> fn_state(*final(result)) == fn_step(*ctx, fn_state(*old(result)), m.function).0,
        (r is Ok && !is_virtual(m.kind)) ==> final(result).items_text()
            == old(result).items_text() + function_output(*ctx, *old(result), m.function),
        r is Err ==> *final(result) == *old(result),
        (r is Err || is_virtual(m.kind) || sig_of(*ctx, m.function).variadic) ==>
            final(methods)@ == old(methods)@ && *final(names) == *old(names),
        (r is Ok && !is_virtual(m.kind) && !sig_of(*ctx, m.function).variadic) ==> {
            &&& views(final(methods)@) == views(old(methods)@).push(wrapper_text(*ctx, *m, old(names).count(method_base_name(*m))))
            &&& final(names).count(method_base_name(*m)) == old(names).count(method_base_name(*m)) + 1
            &&& forall|n: Seq<char>| n != method_base_name(*m) ==> final(names).count(n) == old(names).count(n)
        },
{
    if m.kind == MethodKind::Virtual || m.kind == MethodKind::VirtualDestructor {
        return Ok(());
    }
    match codegen_function(ctx, result, &m.function) {
        Ok(()) => {},
        Err(e) => {
            return Err(e);
        },
    }
    let f = &m.function;
    let sid = canonical_type(ctx, f.signature);
    proof {
        assert(kind_refs_below(ctx.ty(sid as int).kind, sid as int));
    }
    let sig = match &ctx.types[sid].kind {
        TypeKind::Function(sig) => sig,
        _ => {
            return Ok(());
        },
    };
    if sig.variadic {
        return Ok(());
    }
    let base = if m.kind == MethodKind::Constructor {
        String::from_str("new")
    } else if m.kind == MethodKind::Destructor {
        String::from_str("destruct")
    } else {
        f.name.clone()
    };
    let count = names.bump(&base);
    let mut name = base;
    if count != 0 {
        push_decimal(&mut name, count as u64);
    }
    let is_ctor = m.kind == MethodKind::Constructor;
    let is_static = m.kind == MethodKind::Static;
    let mut args = crate::types::arg_items(ctx, sig, sid);
    let mut exprs = names_of_args(&sig.args);
    let ghost args0 = views(args@);
    let ghost exprs0 = views(exprs@);
    if !is_static && !is_ctor && args.len() > 0 {
        let this = if m.is_const { String::from_str("&self") } else { String::from_str("&mut self") };
        args.set(0, this);
        proof {
            assert(views(args@) =~= args0.update(0, if m.is_const { "&self"@ } else { "&mut self"@ }));
        }
    }
    let ghost args1 = views(args@);
    if is_ctor && args.len() > 0 {
        let _ = args.remove(0);
        proof {
            assert(views(args@) =~= args1.drop_first());
        }
    }
    let ret = if is_ctor { String::from_str(" -> Self") } else { crate::types::sig_ret(ctx, sig.ret, sid) };
    if is_ctor && exprs.len() > 0 {
        exprs.set(0, String::from_str("&mut __bindgen_tmp"));
        proof {
            assert(views(exprs@) =~= exprs0.update(0, "&mut __bindgen_tmp"@));
        }
    } else if !is_static && exprs.len() > 0 {
        exprs.set(0, String::from_str("self"));
        proof {
            assert(views(exprs@) =~= exprs0.update(0, "self"@));
        }
    }
    let mut call = f.canonical_name.clone();
    call.append("(");
    let je = join_strings(&exprs, ", ");
    call.append(je.as_str());
    call.append(")");
    let mut stmts: Vec<String> = Vec::new();
    if is_ctor {
        stmts.push(String::from_str("let mut __bindgen_tmp = ::std::mem::uninitialized()"));
        stmts.push(call);
        stmts.push(String::from_str("__bindgen_tmp"));
    } else {
        stmts.push(call);
    }
    let mut text = String::from_str("#[inline]\npub unsafe fn ");
    text.append(name.as_str());
    text.append("(");
    let ja = join_strings(&args, ", ");
    text.append(ja.as_str());
    text.append(")");
    text.append(ret.as_str());
    text.append(" {\n");
    let js = join_strings(&stmts, "; ");
    text.append(js.as_str());
    text.append("\n}");
    proof {
        assert(views(stmts@) =~= (if is_ctor {
            seq!["let mut __bindgen_tmp = ::std::mem::uninitialized()"@, call@, "__bindgen_tmp"@]
        } else {
            seq![call@]
        }));
        assert(text@ =~= wrapper_text(*ctx, *m, old(names).count(method_base_name(*m))));
    }
    let ghost prev = methods@;
    methods.push(text);
    proof {
        assert(views(methods@) =~= views(prev).push(text@));
    }
    Ok(())
}

} // verus!
