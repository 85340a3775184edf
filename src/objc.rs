use vstd::prelude::*;
use crate::bitfield::views;
use crate::enums::lines;
use crate::ir::{kind_refs_below, TypeCtx, TypeKind};
use crate::method::arg_names;
use crate::result::{contains_text, find_text, CodegenResult};
use crate::tokens::tokens_of;
use crate::types::{arg_list, join, join_strings, ret_text};

verus! {

/// An Objective-C method: the pieces of its selector, its name in the
/// bindings, whether it is a class method, and its signature (a function
/// type of the context).
#[derive(Debug)]
pub struct ObjCMethod {
    pub selector: Vec<String>,
    pub rust_name: String,
    pub is_class_method: bool,
    pub signature: usize,
}

/// An Objective-C interface and its methods.
#[derive(Debug)]
pub struct ObjCInterface {
    pub name: String,
    pub methods: Vec<ObjCMethod>,
    pub class_methods: Vec<ObjCMethod>,
}

pub open spec fn sig_args_of(ctx: TypeCtx, m: ObjCMethod) -> Seq<(Option<String>, usize)> {
    ctx.ty(m.signature as int).kind->Function_0.args@
}

/// A selector piece followed by the argument passed under it.
pub open spec fn labelled(parts: Seq<String>, args: Seq<Seq<char>>, k: int) -> Seq<Seq<char>>
    decreases k,
{
    if k <= 0 { Seq::empty() } else { labelled(parts, args, k - 1).push(parts[k - 1]@ + ": "@ + args[k - 1]) }
}

/// The message: the selector alone for a method without arguments, else
/// each piece with its argument.
pub open spec fn message_text(m: ObjCMethod, args: Seq<Seq<char>>) -> Seq<char> {
    if args.len() == 0 && m.selector.len() == 1 {
        m.selector@[0]@
    } else {
        join(labelled(m.selector@, args, args.len() as int), " "@)
    }
}

/// The selector has one piece per argument (or a single piece for a method
/// without arguments), and the signature is a function type.
pub open spec fn objc_method_wf(ctx: TypeCtx, m: ObjCMethod) -> bool {
    &&& m.signature < ctx.len()
    &&& ctx.ty(m.signature as int).kind is Function
    &&& (m.selector.len() == sig_args_of(ctx, m).len() || (sig_args_of(ctx, m).len() == 0 && m.selector.len() == 1))
}

/// The declaration of a method in the interface's trait, and its definition
/// for `id`, which sends the message to the object (or, for a class method,
/// to the class looked up by name).
pub open spec fn objc_method_texts(ctx: TypeCtx, m: ObjCMethod, class_name: Seq<char>, prefix: Seq<char>) -> (Seq<char>, Seq<char>) {
    let args = sig_args_of(ctx, m);
    let fn_args = arg_list(ctx, args, args.len() as int, m.signature as int);
    let ret = ret_text(ctx, ctx.ty(m.signature as int).kind->Function_0.ret as int, m.signature as int);
    let sig = "("@ + join(if m.is_class_method { fn_args } else { seq!["self"@] + fn_args }, ", "@) + ")"@ + ret;
    let msg = message_text(m, arg_names(args));
    let body = if m.is_class_method {
        "msg_send!(objc::runtime::Class::get(\""@ + class_name + "\").expect(\"Couldn't find "@ + class_name
            + "\"), "@ + msg + ")"@
    } else {
        "msg_send!(self, "@ + msg + ")"@
    };
    let name = prefix + m.rust_name@;
    ("unsafe fn "@ + name + sig + " {\n"@ + body + "\n}"@, "unsafe fn "@ + name + sig + ";"@)
}

fn message(m: &ObjCMethod, args: &Vec<String>) -> (r: String)
    requires
        m.selector.len() == args.len() || (args.len() == 0 && m.selector.len() == 1),
    ensures
        r@ == message_text(*m, views(args@)),
{
    if args.len() == 0 && m.selector.len() == 1 {
        return m.selector[0].clone();
    }
    let mut parts: Vec<String> = Vec::new();
    let mut k: usize = 0;
    proof {
        assert(views(parts@) =~= Seq::<Seq<char>>::empty());
    }
    while k < args.len()
        invariant
            k <= args.len(),
            m.selector.len() == args.len(),
            views(parts@) == labelled(m.selector@, views(args@), k as int),
        decreases args.len() - k,
    {
        let mut p = m.selector[k].clone();
        p.append(": ");
        p.append(args[k].as_str());
        let ghost prev = parts@;
        parts.push(p);
        proof {
            assert(views(parts@) =~= views(prev).push(p@));
        }
        k = k + 1;
    }
    join_strings(&parts, " ")
}

fn objc_method_codegen(ctx: &TypeCtx, m: &ObjCMethod, class_name: &String, prefix: &str) -> (r: (String, String))
    requires
        ctx.wf(),
        objc_method_wf(*ctx, *m),
    ensures
        (r.0@, r.1@) == objc_method_texts(*ctx, *m, class_name@, prefix@),
{
    proof {
        assert(kind_refs_below(ctx.ty(m.signature as int).kind, m.signature as int));
    }
    let sig = match &ctx.types[m.signature].kind {
        TypeKind::Function(sig) => sig,
        _ => {
            return (String::new(), String::new());
        },
    };
    let fn_args = crate::types::arg_items(ctx, sig, m.signature);
    let ret = crate::types::sig_ret(ctx, sig.ret, m.signature);
    let names = crate::method::names_of_args(&sig.args);
    proof {
        assert(names@.len() == views(names@).len());
    }
    let mut sig = String::from_str("(");
    if m.is_class_method {
        let j = join_strings(&fn_args, ", ");
        sig.append(j.as_str());
    } else {
        let mut all: Vec<String> = Vec::new();
        all.push(String::from_str("self"));
        let mut rest = fn_args;
        let ghost rest_v = views(rest@);
        all.append(&mut rest);
        proof {
            assert(views(all@) =~= seq!["self"@] + rest_v);
        }
        let j = join_strings(&all, ", ");
        sig.append(j.as_str());
    }
    sig.append(")");
    sig.append(ret.as_str());
    let msg = message(m, &names);
    let body = if m.is_class_method {
        let mut b = String::from_str("msg_send!(objc::runtime::Class::get(\"");
        b.append(class_name.as_str());
        b.append("\").expect(\"Couldn't find ");
        b.append(class_name.as_str());
        b.append("\"), ");
        b.append(msg.as_str());
        b.append(")");
        b
    } else {
        let mut b = String::from_str("msg_send!(self, ");
        b.append(msg.as_str());
        b.append(")");
        b
    };
    let mut name = String::from_str(prefix);
    name.append(m.rust_name.as_str());
    let mut imp = String::from_str("unsafe fn ");
    imp.append(name.as_str());
    imp.append(sig.as_str());
    imp.append(" {\n");
    imp.append(body.as_str());
    imp.append("\n}");
    let mut decl = String::from_str("unsafe fn ");
    decl.append(name.as_str());
    decl.append(sig.as_str());
    decl.append(";");
    (imp, decl)
}

pub open spec fn instance_names(i: ObjCInterface) -> Seq<String> {
    i.methods@.map_values(|m: ObjCMethod| m.rust_name)
}

/// The trait of an interface and its impl for `id`: the instance methods,
/// then the class methods, a class method taking `class_` in front of its
/// name when an instance method has the same name.
pub open spec fn objc_texts(ctx: TypeCtx, i: ObjCInterface, k: nat, c: nat) -> (Seq<Seq<char>>, Seq<Seq<char>>)
    decreases c, k,
{
    if c > 0 {
        let (imps, decls) = objc_texts(ctx, i, k, (c - 1) as nat);
        let m = i.class_methods@[c - 1];
        let prefix = if contains_text(instance_names(i), m.rust_name@) { "class_"@ } else { Seq::empty() };
        let (a, b) = objc_method_texts(ctx, m, i.name@, prefix);
        (imps.push(a), decls.push(b))
    } else if k > 0 {
        let (imps, decls) = objc_texts(ctx, i, (k - 1) as nat, 0);
        let (a, b) = objc_method_texts(ctx, i.methods@[k - 1], i.name@, Seq::empty());
        (imps.push(a), decls.push(b))
    } else {
        (Seq::empty(), Seq::empty())
    }
}

pub open spec fn objc_interface_wf(ctx: TypeCtx, i: ObjCInterface) -> bool {
    &&& forall|j: int| 0 <= j < i.methods.len() ==> objc_method_wf(ctx, #[trigger] i.methods@[j])
    &&& forall|j: int| 0 <= j < i.class_methods.len() ==> objc_method_wf(ctx, #[trigger] i.class_methods@[j])
}

/// Emits an Objective-C interface as a trait and its impl for `id`, and
/// notes that the Objective-C prelude is needed.
pub fn codegen_objc_interface(ctx: &TypeCtx, result: &mut CodegenResult, i: &ObjCInterface)
    requires
        ctx.wf(),
        objc_interface_wf(*ctx, *i),
    ensures
        ({
            let (imps, decls) = objc_texts(*ctx, *i, i.methods.len() as nat, i.class_methods.len() as nat);
            final(result).items_text() == old(result).items_text()
                .push("pub trait "@ + i.name@ + " {\n"@ + lines(decls) + "}"@)
                .push("impl "@ + i.name@ + " for id {\n"@ + lines(imps) + "}"@)
        }),
        *final(result) == (CodegenResult { items: final(result).items, saw_objc: true, ..*old(result) }),
{
    let mut imps: Vec<String> = Vec::new();
    let mut decls: Vec<String> = Vec::new();
    let empty = String::new();
    let mut k: usize = 0;
    proof {
        assert(views(imps@) =~= Seq::<Seq<char>>::empty());
        assert(views(decls@) =~= Seq::<Seq<char>>::empty());
    }
    while k < i.methods.len()
        invariant
            k <= i.methods.len(),
            ctx.wf(),
            objc_interface_wf(*ctx, *i),
            empty@ == Seq::<char>::empty(),
            (views(imps@), views(decls@)) == objc_texts(*ctx, *i, k as nat, 0),
        decreases i.methods.len() - k,
    {
        proof {
            assert(objc_method_wf(*ctx, i.methods@[k as int]));
        }
        let (a, b) = objc_method_codegen(ctx, &i.methods[k], &i.name, "");
        let ghost pi = imps@;
        let ghost pd = decls@;
        imps.push(a);
        decls.push(b);
        proof {
            assert(views(imps@) =~= views(pi).push(a@));
            assert(views(decls@) =~= views(pd).push(b@));
            assert(""@ =~= Seq::<char>::empty()) by {
                reveal_strlit("");
            }
        }
        k = k + 1;
    }
    let mut names: Vec<String> = Vec::new();
    let mut j: usize = 0;
    while j < i.methods.len()
        invariant
            j <= i.methods.len(),
            names@ == instance_names(*i).subrange(0, j as int),
        decreases i.methods.len() - j,
    {
        names.push(i.methods[j].rust_name.clone());
        proof {
            assert(instance_names(*i).subrange(0, j + 1) =~= instance_names(*i).subrange(0, j as int).push(i.methods@[j as int].rust_name));
        }
        j = j + 1;
    }
    proof {
        assert(instance_names(*i).subrange(0, j as int) =~= instance_names(*i));
    }
    let mut c: usize = 0;
    while c < i.class_methods.len()
        invariant
            c <= i.class_methods.len(),
            ctx.wf(),
            objc_interface_wf(*ctx, *i),
            names@ == instance_names(*i),
            (views(imps@), views(decls@)) == objc_texts(*ctx, *i, i.methods.len() as nat, c as nat),
        decreases i.class_methods.len() - c,
    {
        let m = &i.class_methods[c];
        proof {
            assert(objc_method_wf(*ctx, i.class_methods@[c as int]));
        }
        let prefix = if find_text(&names, &m.rust_name) { "class_" } else { "" };
        proof {
            reveal_strlit("");
        }
        let (a, b) = objc_method_codegen(ctx, m, &i.name, prefix);
        let ghost pi = imps@;
        let ghost pd = decls@;
        imps.push(a);
        decls.push(b);
        proof {
            assert(views(imps@) =~= views(pi).push(a@));
            assert(views(decls@) =~= views(pd).push(b@));
        }
        c = c + 1;
    }
    let mut t = String::from_str("pub trait ");
    t.append(i.name.as_str());
    t.append(" {\n");
    crate::comp::push_lines(&mut t, &decls);
    t.append("}");
    let mut im = String::from_str("impl ");
    im.append(i.name.as_str());
    im.append(" for id {\n");
    crate::comp::push_lines(&mut im, &imps);
    im.append("}");
    result.push_item(tokens_of(t.as_str()));
    result.push_item(tokens_of(im.as_str()));
    result.saw_objc();
}


fn method_check(ctx: &TypeCtx, m: &ObjCMethod) -> (r: bool)
    ensures
        r == objc_method_wf(*ctx, *m),
{
    if m.signature >= ctx.types.len() {
        return false;
    }
    match &ctx.types[m.signature].kind {
        TypeKind::Function(sig) => m.selector.len() == sig.args.len() || (sig.args.len() == 0 && m.selector.len() == 1),
        _ => false,
    }
}

fn methods_check(ctx: &TypeCtx, ms: &Vec<ObjCMethod>) -> (r: bool)
    ensures
        r == forall|j: int| 0 <= j < ms.len() ==> objc_method_wf(*ctx, #[trigger] ms@[j]),
{
    let mut j: usize = 0;
    while j < ms.len()
        invariant
            j <= ms.len(),
            forall|k: int| 0 <= k < j ==> objc_method_wf(*ctx, #[trigger] ms@[k]),
        decreases ms.len() - j,
    {
        if !method_check(ctx, &ms[j]) {
            return false;
        }
        j = j + 1;
    }
    true
}

/// Whether every method of the interface has a function type for
/// signature and one selector piece per argument.
pub fn interface_check(ctx: &TypeCtx, i: &ObjCInterface) -> (r: bool)
    ensures
        r == objc_interface_wf(*ctx, *i),
{
    methods_check(ctx, &i.methods) && methods_check(ctx, &i.class_methods)
}

} // verus!
