use vstd::prelude::*;
use crate::bitfield::views;
use crate::ir::{kind_refs_below, TypeCtx, TypeKind};
use crate::layout::{blob, blob_text};
use crate::module::{top_level_path, top_level_path_text};
use crate::result::CodegenResult;
use crate::text::{dec, push_decimal};
use crate::tokens::{tokens_of, tokens_text};
use crate::types::{
    canonical, canonical_type, fallback_layout, implicit_params_text, join, join_strings, named_primitive, render,
    render_or_opaque, res_view, type_from_named, used_params, used_template_params, TyError,
};

verus! {

/// The name of the layout test of an instantiation, numbered from the
/// second test of the same name on.
pub open spec fn instantiation_test_name(name: Seq<char>, n: nat) -> Seq<char> {
    "__bindgen_test_layout_"@ + name + "_instantiation"@ + if n == 0 { Seq::empty() } else { "_"@ + dec(n) }
}

pub open spec fn instantiation_test_text(fn_name: Seq<char>, ty: Seq<char>, size: u64, align: u64) -> Seq<char> {
    "#[test]\nfn "@ + fn_name + "() {\nassert_eq!(::std::mem::size_of::<"@ + ty + ">(), "@ + dec(size as nat)
        + "usize, concat!(\"Size of template specialization: \", stringify!("@ + ty
        + ")));\nassert_eq!(::std::mem::align_of::<"@ + ty + ">(), "@ + dec(align as nat)
        + "usize, concat!(\"Alignment of template specialization: \", stringify!("@ + ty + ")));\n}"@
}

/// Whether an instantiation gets a layout test: layout tests are on, it is
/// not opaque, it depends on no template parameter, and its layout is known.
pub open spec fn gets_instantiation_test(ctx: TypeCtx, id: int, layout_tests: bool, uses_params: bool) -> bool {
    layout_tests && !ctx.ty(id).is_opaque && !uses_params && ctx.ty(id).layout is Some
}

/// Emits the layout test of a template instantiation. `name` is the
/// instantiation's full name with its arguments spelled out; tests of equal
/// names are numbered apart.
pub fn codegen_instantiation(ctx: &TypeCtx, layout_tests: bool, result: &mut CodegenResult, id: usize,
    name: &String, uses_params: bool)
    requires
        ctx.wf(),
        id < ctx.len(),
        old(result).wf(),
        old(result).overloads("__bindgen_test_layout_"@ + name@ + "_instantiation"@) < u32::MAX,
    ensures
        final(result).wf(),
        !gets_instantiation_test(*ctx, id as int, layout_tests, uses_params) ==> *final(result) == *old(result),
        gets_instantiation_test(*ctx, id as int, layout_tests, uses_params) ==> {
            let key = "__bindgen_test_layout_"@ + name@ + "_instantiation"@;
            let l = ctx.ty(id as int).layout.unwrap();
            &&& final(result).items_text() == old(result).items_text().push(instantiation_test_text(
                instantiation_test_name(name@, old(result).overloads(key)), render_or_opaque(*ctx, id as int),
                l.size, l.align))
            &&& final(result).overloads(key) == old(result).overloads(key) + 1
            &&& forall|n: Seq<char>| n != key ==> final(result).overloads(n) == old(result).overloads(n)
            &&& final(result).functions_seen == old(result).functions_seen
            &&& final(result).items_seen == old(result).items_seen
        },
{
    let t = &ctx.types[id];
    if !layout_tests || t.is_opaque || uses_params {
        return;
    }
    let l = match t.layout {
        Some(l) => l,
        None => {
            return;
        },
    };
    let mut key = String::from_str("__bindgen_test_layout_");
    key.append(name.as_str());
    key.append("_instantiation");
    let times = result.overload_number(&key);
    let ghost after = *result;
    let mut fn_name = key;
    if times > 0 {
        fn_name.append("_");
        push_decimal(&mut fn_name, times as u64);
    }
    let ty = crate::types::to_rust_ty_or_opaque(ctx, id);
    let mut s = String::from_str("#[test]\nfn ");
    s.append(fn_name.as_str());
    s.append("() {\nassert_eq!(::std::mem::size_of::<");
    s.append(ty.as_str());
    s.append(">(), ");
    push_decimal(&mut s, l.size);
    s.append("usize, concat!(\"Size of template specialization: \", stringify!(");
    s.append(ty.as_str());
    s.append(")));\nassert_eq!(::std::mem::align_of::<");
    s.append(ty.as_str());
    s.append(">(), ");
    push_decimal(&mut s, l.align);
    s.append("usize, concat!(\"Alignment of template specialization: \", stringify!(");
    s.append(ty.as_str());
    s.append(")));\n}");
    proof {
        let key = "__bindgen_test_layout_"@ + name@ + "_instantiation"@;
        if times == 0 {
            assert(fn_name@ =~= instantiation_test_name(name@, old(result).overloads(key)));
        } else {
            assert(fn_name@ =~= instantiation_test_name(name@, old(result).overloads(key)));
        }
    }
    result.push_item(tokens_of(s.as_str()));
    proof {
        assert(result.overload_counters == after.overload_counters);
        let key = "__bindgen_test_layout_"@ + name@ + "_instantiation"@;
        assert(result.overloads(key) == after.overloads(key));
        assert forall|n: Seq<char>| n != key implies result.overloads(n) == old(result).overloads(n) by {
            assert(result.overloads(n) == after.overloads(n));
        }
    }
}


pub open spec fn is_path_char(c: char) -> bool {
    ('A' <= c && c <= 'Z') || ('a' <= c && c <= 'z') || ('0' <= c && c <= '9') || c == ':' || c == '_' || c == ' '
}

/// Text made only of the characters of a plain path.
pub open spec fn simple_path(s: Seq<char>) -> bool {
    forall|i: int| 0 <= i < s.len() ==> is_path_char(#[trigger] s[i])
}

fn is_simple_path(s: &String) -> (r: bool)
    ensures
        r == simple_path(s@),
{
    let t = s.as_str();
    let n = t.unicode_len();
    let mut i: usize = 0;
    while i < n
        invariant
            i <= n,
            n == t@.len(),
            t@ == s@,
            forall|k: int| 0 <= k < i ==> is_path_char(#[trigger] s@[k]),
        decreases n - i,
    {
        let c = t.get_char(i);
        if !(('A' <= c && c <= 'Z') || ('a' <= c && c <= 'z') || ('0' <= c && c <= '9') || c == ':' || c == '_' || c == ' ') {
            return false;
        }
        i = i + 1;
    }
    true
}

/// The type an alias stands for: an opaque blob for an opaque alias; else
/// the target's rendering with its implicit template parameters, falling
/// back to a blob of the target's layout, then of the alias's own.
pub open spec fn alias_target_text(ctx: TypeCtx, id: int, t: int) -> Seq<char> {
    let a = ctx.ty(id);
    if a.is_opaque {
        blob_text(fallback_layout(a))
    } else {
        (match render(ctx, t) {
            Ok(x) => x,
            Err(_) => match ctx.ty(t).layout {
                Some(l) => blob_text(l),
                None => blob_text(fallback_layout(a)),
            },
        }) + implicit_params_text(ctx, t)
    }
}

pub open spec fn alias_target(ctx: TypeCtx, id: int) -> int {
    match ctx.ty(id).kind {
        TypeKind::Alias(t) => t as int,
        TypeKind::TemplateAlias(t) => t as int,
        _ => id,
    }
}

/// What a typedef emits: nothing for `typedef struct foo {..} foo;` or for
/// a well-known typedef; a re-export for a plain alias of an enum; else a
/// type alias, generic over the template parameters it uses.
pub open spec fn alias_item(ctx: TypeCtx, id: int, namespaces: bool, depth: nat, comment: Option<Seq<char>>) -> Option<Seq<char>> {
    let a = ctx.ty(id);
    let t = alias_target(ctx, id);
    if ctx.ty(t).name@ == a.name@ || named_primitive(a.name@) is Some {
        None
    } else {
        let doc = match comment {
            Some(c) => "/// "@ + c + "\n"@,
            None => Seq::empty(),
        };
        let inner = alias_target_text(ctx, id, t);
        let params = used_params(ctx, a);
        let outer = !a.is_opaque && params.len() > 0;
        let c = canonical(ctx, t);
        if simple_path(inner) && !outer && 0 <= c < ctx.len() && ctx.ty(c).kind is Enum {
            Some(doc + "pub use "@ + join(top_level_path_text(namespaces, depth), "::"@) + "::"@ + inner + " as "@ + a.name@ + ";"@)
        } else {
            Some(doc + "pub type "@ + a.name@ + (if outer { "<"@ + join(params, ", "@) + ">"@ } else { Seq::empty() })
                + " = "@ + inner + ";"@)
        }
    }
}

pub open spec fn opt_view(o: Option<String>) -> Option<Seq<char>> {
    match o {
        Some(s) => Some(s@),
        None => None,
    }
}

/// Emits a typedef; `depth` is the codegen depth of its scope.
pub fn codegen_alias(ctx: &TypeCtx, namespaces: bool, depth: u64, comment: &Option<String>,
    result: &mut CodegenResult, id: usize)
    requires
        ctx.wf(),
        id < ctx.len(),
        ctx.ty(id as int).kind is Alias || ctx.ty(id as int).kind is TemplateAlias,
    ensures
        final(result).items_text() == match alias_item(*ctx, id as int, namespaces, depth as nat, opt_view(*comment)) {
            Some(x) => old(result).items_text().push(x),
            None => old(result).items_text(),
        },
        *final(result) == (CodegenResult { items: final(result).items, ..*old(result) }),
{
    proof {
        assert(kind_refs_below(ctx.ty(id as int).kind, id as int));
    }
    let a = &ctx.types[id];
    let t: usize = match &a.kind {
        TypeKind::Alias(t) => *t,
        TypeKind::TemplateAlias(t) => *t,
        _ => id,
    };
    if ctx.types[t].name == a.name {
        return;
    }
    if type_from_named(&a.name).is_some() {
        return;
    }
    let mut doc = String::new();
    match comment {
        Some(c) => {
            doc.append("/// ");
            doc.append(c.as_str());
            doc.append("\n");
        },
        None => {},
    }
    let inner = if a.is_opaque {
        let l = match a.layout {
            Some(l) => l,
            None => crate::layout::Layout { size: 1, align: 1 },
        };
        blob(l)
    } else {
        let mut x = match crate::types::try_to_rust_ty(ctx, t) {
            Ok(x) => x,
            Err(_) => match ctx.types[t].layout {
                Some(l) => blob(l),
                None => {
                    let l = match a.layout {
                        Some(l) => l,
                        None => crate::layout::Layout { size: 1, align: 1 },
                    };
                    blob(l)
                },
            },
        };
        let imp = crate::types::implicit_template_params(ctx, t);
        x.append(imp.as_str());
        x
    };
    let params = used_template_params(ctx, id);
    let outer = !a.is_opaque && params.len() > 0;
    let c = canonical_type(ctx, t);
    let is_enum = match &ctx.types[c].kind {
        TypeKind::Enum => true,
        _ => false,
    };
    let mut s = doc;
    if !outer && is_enum && is_simple_path(&inner) {
        s.append("pub use ");
        let path = top_level_path(namespaces, depth);
        let j = join_strings(&path, "::");
        s.append(j.as_str());
        s.append("::");
        s.append(inner.as_str());
        s.append(" as ");
        s.append(a.name.as_str());
        s.append(";");
    } else {
        s.append("pub type ");
        s.append(a.name.as_str());
        if outer {
            s.append("<");
            let j = join_strings(&params, ", ");
            s.append(j.as_str());
            s.append(">");
        }
        s.append(" = ");
        s.append(inner.as_str());
        s.append(";");
    }
    proof {
        assert(inner@ == alias_target_text(*ctx, id as int, t as int));
        assert(s@ == alias_item(*ctx, id as int, namespaces, depth as nat, opt_view(*comment)).unwrap());
    }
    result.push_item(tokens_of(s.as_str()));
}

} // verus!
