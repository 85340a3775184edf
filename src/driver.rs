use vstd::prelude::*;
use crate::bitfield;
use crate::bitfield::{in_unit, unit_well_formed, views, BitfieldUnit};
use crate::comp::{codegen_comp, comp_items, comp_well_formed, emits_record, CompDecl, CompOptions, FieldDecl};
use crate::enums::{enum_output, lines};
use crate::function::{fn_state, fn_step, function_output, function_text, sig_of, symbol_of, FnState};
use crate::objc::objc_texts;
use crate::typedecl::{alias_item, gets_instantiation_test, instantiation_test_name, instantiation_test_text, opt_view};
use crate::types::render_or_opaque;
use crate::var::var_text;
use crate::enums::{codegen_enum, EnumDecl, EnumVariation};
use crate::function::{codegen_function, has_fn_sig, FunctionDecl};
use crate::method::{codegen_method, is_virtual, method_base_name, wrapper_text, MethodDecl, MethodKind};
use crate::result::NameCounts;
use crate::objc::{codegen_objc_interface, interface_check, objc_interface_wf, ObjCInterface};
use crate::ir::{TypeCtx, TypeKind};
use crate::module::{
    complex_helper_items, incomplete_array_helper_items, objc_header_items, prepend_complex_type,
    prepend_incomplete_array_types, prepend_objc_header, prepend_union_types, root_import, root_import_text, texts,
    union_helper_items,
};
use crate::result::CodegenResult;
use crate::tokens::{tokens_of, tokens_text};
use crate::typedecl::{codegen_alias, codegen_instantiation};
use crate::types::{canonical_type, join, join_strings, TyError};
use crate::var::{codegen_var, VarDecl, VarValue};

verus! {

/// What a type item asks of the emitter.
#[derive(Debug)]
pub enum TypeDecl {
    /// A composite and its methods, constructors and destructor.
    Comp(CompDecl, Vec<MethodDecl>),
    Enum(EnumDecl, EnumVariation),
    /// A typedef: the position of the alias type in the context.
    Alias(usize),
    /// A template instantiation: its position, its full name, and whether
    /// it still depends on template parameters.
    Instantiation(usize, String, bool),
    /// An Objective-C `id` or selector type.
    ObjC,
    ObjCInterface(ObjCInterface),
    /// A type that needs no code of its own.
    Other,
}

#[derive(Debug)]
pub enum ItemKind {
    Module(ModuleDecl),
    Function(FunctionDecl),
    Var(VarDecl),
    Type(TypeDecl),
}

/// A namespace and the items it holds, in order.
#[derive(Debug)]
pub struct ModuleDecl {
    pub name: String,
    pub is_inline: bool,
    pub children: Vec<Item>,
}

/// An item of the parsed headers.
#[derive(Debug)]
pub struct Item {
    pub id: u64,
    pub hidden: bool,
    /// Whether the item is among those selected for emission.
    pub enabled: bool,
    /// How many namespaces enclose the item.
    pub depth: u64,
    pub comment: Option<String>,
    pub kind: ItemKind,
}

/// The configuration of one pass.
#[derive(Debug)]
pub struct Options {
    pub conservative_inline_namespaces: bool,
    /// Whether wrappers are made for methods, constructors, destructors.
    pub methods: bool,
    pub constructors: bool,
    pub destructors: bool,
    pub prepend_enum_name: bool,
    pub objc_extern_crate: bool,
    pub comp: CompOptions,
}

/// Why a pass stopped.
#[derive(Clone, Debug, PartialEq, Eq)]
pub enum CodegenError {
    /// A function, or function type, with a calling convention that cannot
    /// be written: its name and the convention's code.
    UnknownAbi(String, u32),
    /// More overloads of one name than a counter holds.
    TooManyOverloads,
    /// An item refers to a type that is not in the context, or a bitfield
    /// does not lie inside its unit.
    IllFormed,
}

/// Every reference an item makes is in the context.
pub open spec fn leaf_well_formed(ctx: TypeCtx, k: ItemKind) -> bool {
    match k {
        ItemKind::Module(_) => true,
        ItemKind::Function(f) => has_fn_sig(ctx, f),
        ItemKind::Var(v) => v.ty < ctx.len() && (v.value matches Some(VarValue::Bytes(bs)) ==> bs.len() < u64::MAX),
        ItemKind::Type(t) => match t {
            TypeDecl::Comp(c, ms) => comp_well_formed(ctx, c)
                && forall|i: int| 0 <= i < ms.len() ==> has_fn_sig(ctx, #[trigger] ms@[i].function),
            TypeDecl::Alias(id) => id < ctx.len() && (ctx.ty(id as int).kind is Alias || ctx.ty(id as int).kind is TemplateAlias),
            TypeDecl::Instantiation(id, _, _) => id < ctx.len(),
            TypeDecl::ObjCInterface(i) => objc_interface_wf(ctx, i),
            _ => true,
        },
    }
}


/// The key under which layout tests of an instantiation are numbered.
pub open spec fn instantiation_key(name: Seq<char>) -> Seq<char> {
    "__bindgen_test_layout_"@ + name + "_instantiation"@
}

/// What a type item adds to the output, given the result it is emitted
/// into. For a composite this is what the record emits; the extern
/// declarations and wrappers of its methods follow it.
pub open spec fn type_output(ctx: TypeCtx, opts: Options, r: CodegenResult, item: Item, t: TypeDecl) -> Seq<Seq<char>> {
    match t {
        TypeDecl::Comp(c, ms) => comp_items(ctx, opts.comp, c) + if emits_methods_spec(c) && ms.len() > 0 {
            comp_methods_output(ctx, opts, r, c, ms@).0
        } else {
            Seq::empty()
        },
        TypeDecl::Enum(e, style) => enum_output(e, style, opts.prepend_enum_name),
        TypeDecl::Alias(id) => match alias_item(ctx, id as int, opts.comp.namespaces, item.depth as nat, opt_view(item.comment)) {
            Some(x) => seq![x],
            None => Seq::empty(),
        },
        TypeDecl::Instantiation(id, name, uses) => if r.overloads(instantiation_key(name@)) < u32::MAX
            && gets_instantiation_test(ctx, id as int, opts.comp.layout_tests, uses) {
            let l = ctx.ty(id as int).layout.unwrap();
            seq![instantiation_test_text(instantiation_test_name(name@, r.overloads(instantiation_key(name@))),
                render_or_opaque(ctx, id as int), l.size, l.align)]
        } else {
            Seq::empty()
        },
        TypeDecl::ObjCInterface(i) => {
            let (imps, decls) = objc_texts(ctx, i, i.methods.len() as nat, i.class_methods.len() as nat);
            seq!["pub trait "@ + i.name@ + " {\n"@ + lines(decls) + "}"@, "impl "@ + i.name@ + " for id {\n"@ + lines(imps) + "}"@]
        },
        _ => Seq::empty(),
    }
}

/// What a variable adds: nothing for a name already emitted or a static
/// member of a template, else its constant or extern static.
pub open spec fn var_output(ctx: TypeCtx, r: CodegenResult, v: VarDecl) -> Seq<Seq<char>> {
    if r.seen_variable(v.canonical_name@) || v.has_template_params {
        Seq::empty()
    } else {
        seq![var_text(ctx, v)]
    }
}

/// Why a type item stops the pass: a counter of instantiation tests at its
/// maximum, or a method of a composite that fails.
pub open spec fn type_error(ctx: TypeCtx, opts: Options, r: CodegenResult, t: TypeDecl) -> Option<CodegenError> {
    match t {
        TypeDecl::Comp(c, ms) => if emits_methods_spec(c) && ms.len() > 0 {
            comp_methods_output(ctx, opts, r, c, ms@).1
        } else {
            None
        },
        TypeDecl::Instantiation(_, name, _) => if r.overloads(instantiation_key(name@)) == u32::MAX {
            Some(CodegenError::TooManyOverloads)
        } else {
            None
        },
        _ => None,
    }
}

fn push_all(result: &mut CodegenResult, items: Vec<String>)
    ensures
        final(result).items_text() == old(result).items_text() + views(items@),
        *final(result) == (CodegenResult { items: final(result).items, ..*old(result) }),
{
    let mut i: usize = 0;
    while i < items.len()
        invariant
            i <= items.len(),
            result.items_text() == old(result).items_text() + views(items@).subrange(0, i as int),
            *result == (CodegenResult { items: result.items, ..*old(result) }),
        decreases items.len() - i,
    {
        result.push_item(tokens_of(items[i].as_str()));
        proof {
            assert(views(items@).subrange(0, i + 1) =~= views(items@).subrange(0, i as int).push(items@[i as int]@));
        }
        i = i + 1;
    }
    proof {
        assert(views(items@).subrange(0, i as int) =~= views(items@));
    }
}

/// Whether some type of the context is a complex number.
pub fn needs_complex(ctx: &TypeCtx) -> (r: bool)
    ensures
        r == exists|i: int| 0 <= i < ctx.len() && (#[trigger] ctx.ty(i)).kind is Complex,
{
    let mut i: usize = 0;
    while i < ctx.types.len()
        invariant
            i <= ctx.types.len(),
            forall|k: int| 0 <= k < i ==> !((#[trigger] ctx.ty(k)).kind is Complex),
        decreases ctx.types.len() - i,
    {
        match &ctx.types[i].kind {
            TypeKind::Complex(_) => {
                proof {
                    assert(ctx.ty(i as int).kind is Complex);
                }
                return true;
            },
            _ => {},
        }
        i = i + 1;
    }
    false
}

fn codegen_type(ctx: &TypeCtx, opts: &Options, result: &mut CodegenResult, item: &Item, t: &TypeDecl)
    -> (r: Result<(), CodegenError>)
    requires
        ctx.wf(),
        old(result).wf(),
        leaf_well_formed(*ctx, ItemKind::Type(*t)),
    ensures
        final(result).wf(),
        final(result).items_seen == old(result).items_seen,
        final(result).items_text() == old(result).items_text() + type_output(*ctx, *opts, *old(result), *item, *t),
        r == result_of(type_error(*ctx, *opts, *old(result), *t)),
{
    match t {
        TypeDecl::Comp(c, ms) => {
            codegen_comp(ctx, &opts.comp, result, c);
            if emits_methods(c) && ms.len() > 0 {
                let ghost mid = *result;
                proof {
                    assert(fn_state(mid).seen =~= fn_state(*old(result)).seen);
                    assert(fn_state(mid).counts =~= fn_state(*old(result)).counts);
                    assert(methods_start(mid) == methods_start(*old(result)));
                }
                let r = codegen_comp_methods(ctx, opts, result, c, ms);
                proof {
                    assert(result.items_text() =~= old(result).items_text() + type_output(*ctx, *opts, *old(result), *item, *t));
                }
                return r;
            }
            proof {
                assert(result.items_text() =~= old(result).items_text() + type_output(*ctx, *opts, *old(result), *item, *t));
            }
        },
        TypeDecl::Enum(e, style) => {
            let items = codegen_enum(e, *style, opts.prepend_enum_name);
            push_all(result, items);
        },
        TypeDecl::Alias(id) => {
            codegen_alias(ctx, opts.comp.namespaces, item.depth, &item.comment, result, *id);
        },
        TypeDecl::Instantiation(id, name, uses_params) => {
            let mut key = String::from_str("__bindgen_test_layout_");
            key.append(name.as_str());
            key.append("_instantiation");
            if result.overload_count(&key) == u32::MAX {
                proof {
                    assert(key@ == instantiation_key(name@));
                    assert(old(result).items_text() + Seq::<Seq<char>>::empty() =~= old(result).items_text());
                }
                return Err(CodegenError::TooManyOverloads);
            }
            codegen_instantiation(ctx, opts.comp.layout_tests, result, *id, name, *uses_params);
        },
        TypeDecl::ObjC => {
            result.saw_objc();
            proof {
                assert(old(result).items_text() + Seq::<Seq<char>>::empty() =~= old(result).items_text());
            }
        },
        TypeDecl::ObjCInterface(i) => {
            codegen_objc_interface(ctx, result, i);
        },
        TypeDecl::Other => {
            proof {
                assert(old(result).items_text() + Seq::<Seq<char>>::empty() =~= old(result).items_text());
            }
        },
    }
    proof {
        let out = type_output(*ctx, *opts, *old(result), *item, *t);
        match t {
            TypeDecl::Alias(id) => {
                assert(old(result).items_text() + Seq::<Seq<char>>::empty() =~= old(result).items_text());
                if let Some(x) = alias_item(*ctx, *id as int, opts.comp.namespaces, item.depth as nat, opt_view(item.comment)) {
                    assert(old(result).items_text().push(x) =~= old(result).items_text() + seq![x]);
                }
            },
            TypeDecl::Instantiation(id, name, uses) => {
                assert(old(result).items_text() + Seq::<Seq<char>>::empty() =~= old(result).items_text());
                assert("__bindgen_test_layout_"@ + name@ + "_instantiation"@ == instantiation_key(name@));
                if gets_instantiation_test(*ctx, *id as int, opts.comp.layout_tests, *uses)
                    && old(result).overloads(instantiation_key(name@)) < u32::MAX {
                    assert(result.items_text() =~= old(result).items_text() + out);
                }
            },
            TypeDecl::ObjCInterface(i) => {
                assert(result.items_text() =~= old(result).items_text() + out);
            },
            _ => {},
        }
    }
    Ok(())
}

/// Emits an item and what it holds. An item that is not selected, is
/// hidden, or was already emitted in this result emits nothing; any other
/// is marked as emitted before its code is made, so no item is emitted
/// twice. `is_root` marks the outermost module, in front of whose items the
/// helper types the pass needed are put.
pub fn codegen_item(ctx: &TypeCtx, opts: &Options, result: &mut CodegenResult, item: &Item, is_root: bool)
    -> (r: Result<(), CodegenError>)
    requires
        ctx.wf(),
        old(result).wf(),
    ensures
        final(result).wf(),
        (!item.enabled || item.hidden || old(result).seen_item(item.id)) ==> r is Ok && *final(result) == *old(result),
        (item.enabled && !item.hidden && !old(result).seen_item(item.id) && !leaf_well_formed(*ctx, item.kind)) ==> (
            r == Err::<(), CodegenError>(CodegenError::IllFormed) && *final(result) == *old(result)),
        (item.enabled && !item.hidden && leaf_well_formed(*ctx, item.kind)) ==> final(result).seen_item(item.id),
        (item.enabled && !item.hidden && !old(result).seen_item(item.id) && !(item.kind is Module)) ==> {
            &&& r == result_of(leaf_error(*ctx, *opts, *old(result), *item))
            &&& final(result).items_text() == old(result).items_text() + leaf_output(*ctx, *opts, *old(result), *item)
        },
        forall|x: u64| old(result).seen_item(x) ==> final(result).seen_item(x),
        !is_root ==> old(result).items_text().is_prefix_of(final(result).items_text()),
        (item.enabled && !item.hidden && !old(result).seen_item(item.id) && item.kind is Module && opts.comp.namespaces
            && !(item.kind->Module_0.is_inline && !opts.conservative_inline_namespaces)) ==> {
            let m = item.kind->Module_0;
            &&& (r is Ok && any_enabled(m)) ==> final(result).items_text().len() == old(result).items_text().len() + 1
                && final(result).items_text().drop_last() == old(result).items_text()
                && exists|pre: Seq<Seq<char>>, rest: Seq<Seq<char>>| (!is_root ==> pre.len() == 0)
                    && #[trigger] final(result).items_text().last() == module_header(m.name@)
                        + lines(pre + seq![root_import_text(item.depth as nat, "root"@)] + rest) + "}"@
            &&& !any_enabled(m) ==> r is Ok && final(result).items_text() == old(result).items_text()
                && final(result).saw_union == old(result).saw_union
                && final(result).saw_bindgen_union == old(result).saw_bindgen_union
                && final(result).saw_incomplete_array == old(result).saw_incomplete_array
                && final(result).saw_objc == old(result).saw_objc
        },
    decreases item, 2int,
{
    if !item.enabled || item.hidden || result.seen(item.id) {
        return Ok(());
    }
    if !leaf_check(ctx, &item.kind) {
        return Err(CodegenError::IllFormed);
    }
    let ghost before = result.items_seen@;
    result.set_seen(item.id);
    let ghost marked = result.items_seen@;
    proof {
        assert(marked[marked.len() - 1] == item.id);
    }
    let ghost mid = *result;
    proof {
        assert(mid.items_text() == old(result).items_text());
        assert(fn_state(mid).seen =~= fn_state(*old(result)).seen);
        assert(fn_state(mid).counts =~= fn_state(*old(result)).counts);
        assert(fn_state(mid) == fn_state(*old(result)));
        assert(methods_start(mid) == methods_start(*old(result)));
        assert(old(result).items_text() + Seq::<Seq<char>>::empty() =~= old(result).items_text());
        if let ItemKind::Type(t) = &item.kind {
            assert(type_output(*ctx, *opts, mid, *item, *t) == type_output(*ctx, *opts, *old(result), *item, *t));
            assert(type_error(*ctx, *opts, mid, *t) == type_error(*ctx, *opts, *old(result), *t));
        }
    }
    let r = match &item.kind {
        ItemKind::Module(m) => codegen_module(ctx, opts, result, item, m, is_root),
        ItemKind::Function(f) => {
            if result.overload_count(&f.canonical_name) == u32::MAX {
                Err(CodegenError::TooManyOverloads)
            } else {
                let fr = codegen_function(ctx, result, f);
                proof {
                    let out = function_output(*ctx, mid, *f);
                    if fr is Ok {
                        if f.has_template_params || mid.seen_fn(symbol_of(*f)) {
                            assert(mid.items_text() + out =~= mid.items_text());
                        } else {
                            assert(mid.items_text().push(out[0]) =~= mid.items_text() + out);
                        }
                    }
                }
                match fr {
                    Ok(()) => Ok(()),
                    Err(e) => Err(abi_error(&f.canonical_name, e)),
                }
            }
        },
        ItemKind::Var(v) => {
            codegen_var(ctx, result, v);
            proof {
                let out = var_output(*ctx, mid, *v);
                if mid.seen_variable(v.canonical_name@) || v.has_template_params {
                    assert(mid.items_text() + out =~= mid.items_text());
                } else {
                    assert(mid.items_text().push(out[0]) =~= mid.items_text() + out);
                }
            }
            Ok(())
        },
        ItemKind::Type(t) => codegen_type(ctx, opts, result, item, t),
    };
    proof {
        assert forall|x: u64| old(result).seen_item(x) implies result.seen_item(x) by {
            let i = choose|i: int| 0 <= i < before.len() && before[i] == x;
            assert(marked[i] == x);
        }
        assert(marked.contains(item.id));
    }
    r
}

fn codegen_children(ctx: &TypeCtx, opts: &Options, result: &mut CodegenResult, item: &Item, m: &ModuleDecl)
    -> (r: Result<bool, CodegenError>)
    requires
        ctx.wf(),
        old(result).wf(),
        item.kind == ItemKind::Module(*m),
    ensures
        final(result).wf(),
        forall|x: u64| old(result).seen_item(x) ==> final(result).seen_item(x),
        r is Ok ==> r.unwrap() == any_enabled(*m),
        old(result).items_text().is_prefix_of(final(result).items_text()),
        !any_enabled(*m) ==> r is Ok && *final(result) == *old(result),
    decreases item, 0int,
{
    let mut found_any = false;
    let mut i: usize = 0;
    while i < m.children.len()
        invariant
            i <= m.children.len(),
            ctx.wf(),
            result.wf(),
                item.kind == ItemKind::Module(*m),
            forall|x: u64| old(result).seen_item(x) ==> result.seen_item(x),
            found_any == exists|k: int| 0 <= k < i && (#[trigger] m.children@[k]).enabled,
            old(result).items_text().is_prefix_of(result.items_text()),
            !found_any ==> *result == *old(result),
        decreases m.children.len() - i,
    {
        let child = &m.children[i];
        proof {
            assert(decreases_to!(*item => item.kind));
            assert(decreases_to!(item.kind => item.kind->Module_0));
            assert(decreases_to!(*m => m.children));
            assert(decreases_to!(m.children => m.children@));
            assert(decreases_to!(m.children@ => m.children@[i as int]));
            assert(decreases_to!(*item => m.children@[i as int]));
        }
        if child.enabled {
            found_any = true;
        }
        let ghost before_child = result.items_text();
        match codegen_item(ctx, opts, result, child, false) {
            Ok(()) => {},
            Err(e) => {
                proof {
                    assert(m.children@[i as int].enabled);
                }
                return Err(e);
            },
        }
        proof {
            assert(old(result).items_text().is_prefix_of(result.items_text())) by {
                assert(result.items_text().subrange(0, old(result).items_text().len() as int)
                    =~= before_child.subrange(0, old(result).items_text().len() as int));
            }
        }
        i = i + 1;
    }
    Ok(found_any)
}


/// The helper types put in front of the root's items, in this order: the
/// Objective-C prelude, the complex-number type, the flexible-array type,
/// the union-field type, each only when the pass needed it.
pub open spec fn root_helpers(ctx: TypeCtx, opts: Options, r: CodegenResult) -> Seq<Seq<char>> {
    (if r.saw_objc { objc_header_items(opts.objc_extern_crate) } else { Seq::empty() })
        + (if exists|i: int| 0 <= i < ctx.len() && (#[trigger] ctx.ty(i)).kind is Complex { complex_helper_items() } else { Seq::empty() })
        + (if r.saw_incomplete_array { incomplete_array_helper_items() } else { Seq::empty() })
        + (if r.saw_bindgen_union { union_helper_items() } else { Seq::empty() })
}

fn prepend_root(ctx: &TypeCtx, opts: &Options, result: &mut CodegenResult)
    requires
        old(result).wf(),
    ensures
        final(result).wf(),
        final(result).items_text() == root_helpers(*ctx, *opts, *old(result)) + old(result).items_text(),
        *final(result) == (CodegenResult { items: final(result).items, ..*old(result) }),
{
    let ghost start = result.items_text();
    if result.saw_bindgen_union {
        prepend_union_types(&mut result.items);
    }
    if result.saw_incomplete_array {
        prepend_incomplete_array_types(&mut result.items);
    }
    if needs_complex(ctx) {
        prepend_complex_type(&mut result.items);
    }
    if result.saw_objc {
        prepend_objc_header(opts.objc_extern_crate, &mut result.items);
    }
    proof {
        assert(result.items_text() =~= root_helpers(*ctx, *opts, *old(result)) + start);
    }
}

fn codegen_module(ctx: &TypeCtx, opts: &Options, result: &mut CodegenResult, item: &Item, m: &ModuleDecl, is_root: bool)
    -> (r: Result<(), CodegenError>)
    requires
        ctx.wf(),
        old(result).wf(),
        item.kind == ItemKind::Module(*m),
    ensures
        final(result).wf(),
        forall|x: u64| old(result).seen_item(x) ==> final(result).seen_item(x),
        !is_root ==> old(result).items_text().is_prefix_of(final(result).items_text()),
        (opts.comp.namespaces && !(m.is_inline && !opts.conservative_inline_namespaces)) ==> {
            &&& (r is Ok && any_enabled(*m)) ==> final(result).items_text().len() == old(result).items_text().len() + 1
                && final(result).items_text().drop_last() == old(result).items_text()
                && exists|pre: Seq<Seq<char>>, rest: Seq<Seq<char>>| (!is_root ==> pre.len() == 0)
                    && #[trigger] final(result).items_text().last() == module_header(m.name@)
                        + lines(pre + seq![root_import_text(item.depth as nat, "root"@)] + rest) + "}"@
            &&& !any_enabled(*m) ==> r is Ok && *final(result) == *old(result)
        },
    decreases item, 1int,
{
    if !opts.comp.namespaces || (m.is_inline && !opts.conservative_inline_namespaces) {
        let found = codegen_children(ctx, opts, result, item, m);
        if is_root {
            prepend_root(ctx, opts, result);
        }
        return match found {
            Ok(_) => Ok(()),
            Err(e) => Err(e),
        };
    }
    let mut child = CodegenResult::new(result.codegen_id);
    let root_name = String::from_str("root");
    child.push_item(root_import(item.depth, &root_name));
    let ghost ri = root_import_text(item.depth as nat, root_name@);
    proof {
        assert(child.items_text() =~= seq![ri]);
    }
    let found_any = match codegen_children(ctx, opts, &mut child, item, m) {
        Ok(f) => f,
        Err(e) => {
            return Err(e);
        },
    };
    let ghost rest = child.items_text().subrange(1, child.items_text().len() as int);
    let ghost pre = if is_root { root_helpers(*ctx, *opts, child) } else { Seq::<Seq<char>>::empty() };
    proof {
        assert(child.items_text() =~= seq![ri] + rest);
    }
    if is_root {
        prepend_root(ctx, opts, &mut child);
    }
    proof {
        assert(child.items_text() =~= pre + seq![ri] + rest);
    }
    let ghost before = *result;
    let ghost child_texts = child.items_text();
    let inner = result.inner(child);
    proof {
        assert(result.items_seen == before.items_seen);
    }
    if !found_any {
        proof {
            assert(*result == *old(result));
        }
        return Ok(());
    }
    let ghost header = module_header(m.name@);
    let mut text = if m.name == root_name {
        String::from_str("#[allow(non_snake_case, non_camel_case_types, non_upper_case_globals)]\npub mod root {\n")
    } else {
        let mut t = String::from_str("pub mod ");
        t.append(m.name.as_str());
        t.append(" {\n");
        t
    };
    proof {
        assert(text@ == header);
        assert(texts(inner@) == child_texts);
    }
    let mut i: usize = 0;
    while i < inner.len()
        invariant
            i <= inner.len(),
            text@ == header + lines(texts(inner@).subrange(0, i as int)),
        decreases inner.len() - i,
    {
        text.append(inner[i].as_str());
        text.append("\n");
        proof {
            let sub = texts(inner@).subrange(0, i + 1);
            assert(sub.drop_last() =~= texts(inner@).subrange(0, i as int));
            assert(sub.last() == tokens_text(inner@[i as int]));
        }
        i = i + 1;
    }
    text.append("}");
    proof {
        assert(texts(inner@).subrange(0, i as int) =~= texts(inner@));
        assert(text@ == module_header(m.name@) + lines(pre + seq![ri] + rest) + "}"@);
    }
    let ghost before_push = result.items_text();
    result.push_item(tokens_of(text.as_str()));
    proof {
        assert(result.items_text().drop_last() =~= before_push);
    }
    Ok(())
}

/// Some function type of the context has a calling convention that cannot
/// be written.
pub open spec fn has_unknown_abi(ctx: TypeCtx) -> bool {
    exists|i: int| 0 <= i < ctx.len() && #[trigger] ctx.ty(i).kind is Function
        && ctx.ty(i).kind->Function_0.abi is Unknown
}

/// A result with nothing emitted, seen or counted.
pub open spec fn fresh(r: CodegenResult) -> bool {
    &&& r.wf()
    &&& r.items@.len() == 0
    &&& r.items_seen@.len() == 0
    &&& r.functions_seen@.len() == 0
    &&& r.vars_seen@.len() == 0
    &&& r.overload_counters.entries@.len() == 0
    &&& !r.saw_union && !r.saw_bindgen_union && !r.saw_incomplete_array && !r.saw_objc
}

fn find_unknown_abi(ctx: &TypeCtx) -> (r: Option<CodegenError>)
    ensures
        r is Some <==> has_unknown_abi(*ctx),
        r is Some ==> r.unwrap() is UnknownAbi,
{
    let mut i: usize = 0;
    while i < ctx.types.len()
        invariant
            i <= ctx.types.len(),
            forall|k: int| 0 <= k < i ==> !(#[trigger] ctx.ty(k).kind is Function && ctx.ty(k).kind->Function_0.abi is Unknown),
        decreases ctx.types.len() - i,
    {
        match &ctx.types[i].kind {
            TypeKind::Function(sig) => match sig.abi {
                crate::ir::Abi::Unknown(c) => {
                    proof {
                        assert(ctx.ty(i as int).kind is Function && ctx.ty(i as int).kind->Function_0.abi is Unknown);
                    }
                    return Some(CodegenError::UnknownAbi(ctx.types[i].name.clone(), c));
                },
                _ => {},
            },
            _ => {},
        }
        i = i + 1;
    }
    None
}

/// Runs a pass over the tree under `root`, the outermost module, and
/// returns the emitted items in order. A context in which some type refers
/// to a later one is refused, and so is one with a calling convention that
/// cannot be written, which would be fatal wherever it was reached. For an
/// item that is not a module, the pass emits what that item emits into an
/// empty result; a namespace module whose children are selected becomes one
/// scope, opened by its root helpers and the import of the root.
pub fn codegen(ctx: &TypeCtx, opts: &Options, root: &Item) -> (r: Result<Vec<quote::Tokens>, CodegenError>)
    ensures
        !ctx.wf() ==> r == Err::<Vec<quote::Tokens>, CodegenError>(CodegenError::IllFormed),
        ctx.wf() && has_unknown_abi(*ctx) ==> r is Err && r->Err_0 is UnknownAbi,
        r is Ok ==> ctx.wf() && !has_unknown_abi(*ctx),
        (ctx.wf() && !has_unknown_abi(*ctx) && (!root.enabled || root.hidden)) ==> r is Ok && r.unwrap()@.len() == 0,
        (ctx.wf() && !has_unknown_abi(*ctx) && root.enabled && !root.hidden && !(root.kind is Module)) ==>
            exists|r0: CodegenResult| #[trigger] fresh(r0) && {
                &&& (r is Err <==> leaf_error(*ctx, *opts, r0, *root) is Some)
                &&& (r is Err ==> r->Err_0 == leaf_error(*ctx, *opts, r0, *root).unwrap())
                &&& (r is Ok ==> texts(r.unwrap()@) == leaf_output(*ctx, *opts, r0, *root))
            },
        (r is Ok && root.enabled && !root.hidden && root.kind is Module && opts.comp.namespaces
            && !(root.kind->Module_0.is_inline && !opts.conservative_inline_namespaces)) ==> {
            let m = root.kind->Module_0;
            &&& any_enabled(m) ==> r.unwrap()@.len() == 1 && exists|pre: Seq<Seq<char>>, rest: Seq<Seq<char>>|
                #[trigger] texts(r.unwrap()@)[0] == module_header(m.name@)
                    + lines(pre + seq![root_import_text(root.depth as nat, "root"@)] + rest) + "}"@
            &&& !any_enabled(m) ==> r.unwrap()@.len() == 0
        },
{
    if !ctx.check() {
        return Err(CodegenError::IllFormed);
    }
    match find_unknown_abi(ctx) {
        Some(e) => {
            return Err(e);
        },
        None => {},
    }
    let mut result = CodegenResult::new(0);
    let ghost r0 = result;
    proof {
        assert(fresh(r0));
        assert(r0.items_text() =~= Seq::<Seq<char>>::empty());
    }
    match codegen_item(ctx, opts, &mut result, root, true) {
        Ok(()) => {
            proof {
                assert(texts(result.items@) == result.items_text());
                assert(Seq::<Seq<char>>::empty() + leaf_output(*ctx, *opts, r0, *root) =~= leaf_output(*ctx, *opts, r0, *root));
            }
            Ok(result.items)
        },
        Err(e) => Err(e),
    }
}

fn unit_check(u: &BitfieldUnit) -> (r: bool)
    ensures
        r == unit_well_formed(*u),
{
    if bitfield::unit_int_type(u.layout.size).is_none() {
        return true;
    }
    let mut i: usize = 0;
    while i < u.bitfields.len()
        invariant
            i <= u.bitfields.len(),
            bitfield::unit_int_ty(u.layout.size) is Some,
            forall|k: int| 0 <= k < i ==> in_unit(#[trigger] u.bitfields[k].offset, u.bitfields[k].width),
        decreases u.bitfields.len() - i,
    {
        let b = &u.bitfields[i];
        if !(1 <= b.width && b.width <= 64 && b.offset < 64 && b.offset + b.width <= 64) {
            proof {
                assert(!in_unit(u.bitfields[i as int].offset, u.bitfields[i as int].width));
            }
            return false;
        }
        i = i + 1;
    }
    true
}

fn comp_check(ctx: &TypeCtx, c: &CompDecl) -> (r: bool)
    ensures
        r == comp_well_formed(*ctx, *c),
{
    let mut i: usize = 0;
    while i < c.bases.len()
        invariant
            i <= c.bases.len(),
            forall|k: int| 0 <= k < i ==> (#[trigger] c.bases@[k]).ty < ctx.len(),
        decreases c.bases.len() - i,
    {
        if c.bases[i].ty >= ctx.types.len() {
            return false;
        }
        i = i + 1;
    }
    let mut k: usize = 0;
    while k < c.fields.len()
        invariant
            k <= c.fields.len(),
            forall|j: int| 0 <= j < c.bases.len() ==> (#[trigger] c.bases@[j]).ty < ctx.len(),
            forall|j: int| 0 <= j < k ==> match #[trigger] c.fields@[j] {
                FieldDecl::Data(f) => f.ty < ctx.len(),
                FieldDecl::Bitfields(u) => unit_well_formed(u),
            },
        decreases c.fields.len() - k,
    {
        let ok = match &c.fields[k] {
            FieldDecl::Data(f) => f.ty < ctx.types.len(),
            FieldDecl::Bitfields(u) => unit_check(u),
        };
        if !ok {
            return false;
        }
        k = k + 1;
    }
    true
}

/// Whether every reference an item makes is in the context.
pub fn leaf_check(ctx: &TypeCtx, k: &ItemKind) -> (r: bool)
    requires
        ctx.wf(),
    ensures
        r == leaf_well_formed(*ctx, *k),
{
    match k {
        ItemKind::Module(_) => true,
        ItemKind::Function(f) => {
            if f.signature >= ctx.types.len() {
                return false;
            }
            let c = canonical_type(ctx, f.signature);
            match &ctx.types[c].kind {
                TypeKind::Function(_) => true,
                _ => false,
            }
        },
        ItemKind::Var(v) => {
            v.ty < ctx.types.len() && match &v.value {
                Some(VarValue::Bytes(bs)) => (bs.len() as u64) < u64::MAX,
                _ => true,
            }
        },
        ItemKind::Type(t) => match t {
            TypeDecl::Comp(c, ms) => comp_check(ctx, c) && methods_check(ctx, ms),
            TypeDecl::Alias(id) => *id < ctx.types.len() && match &ctx.types[*id].kind {
                TypeKind::Alias(_) | TypeKind::TemplateAlias(_) => true,
                _ => false,
            },
            TypeDecl::Instantiation(id, _, _) => *id < ctx.types.len(),
            TypeDecl::ObjCInterface(i) => interface_check(ctx, i),
            _ => true,
        },
    }
}


fn methods_check(ctx: &TypeCtx, ms: &Vec<MethodDecl>) -> (r: bool)
    requires
        ctx.wf(),
    ensures
        r == forall|i: int| 0 <= i < ms.len() ==> has_fn_sig(*ctx, #[trigger] ms@[i].function),
{
    let mut i: usize = 0;
    while i < ms.len()
        invariant
            i <= ms.len(),
            ctx.wf(),
            forall|k: int| 0 <= k < i ==> has_fn_sig(*ctx, #[trigger] ms@[k].function),
        decreases ms.len() - i,
    {
        let f = &ms[i].function;
        if f.signature >= ctx.types.len() {
            return false;
        }
        let c = canonical_type(ctx, f.signature);
        let ok = match &ctx.types[c].kind {
            TypeKind::Function(_) => true,
            _ => false,
        };
        if !ok {
            return false;
        }
        i = i + 1;
    }
    true
}

/// Whether a composite's methods get wrappers: it is emitted as a record,
/// it is not opaque, and it is not a template.
pub open spec fn emits_methods_spec(c: CompDecl) -> bool {
    emits_record(c) && !c.is_opaque && c.template_params.len() == 0
}

fn emits_methods(c: &CompDecl) -> (r: bool)
    ensures
        r == emits_methods_spec(*c),
{
    !c.has_non_type_template_params && !(c.is_forward_declaration && c.template_params.len() == 0)
        && !c.is_opaque && c.template_params.len() == 0
}

/// Whether the configuration asks for wrappers of methods of this kind.
pub open spec fn method_wanted(opts: Options, k: MethodKind) -> bool {
    match k {
        MethodKind::Constructor => opts.constructors,
        MethodKind::Destructor | MethodKind::VirtualDestructor => opts.destructors,
        _ => opts.methods,
    }
}

/// The state of a composite's methods being emitted: the function state,
/// how many wrappers of each name were made, the items emitted so far, the
/// wrappers, and the error that stopped the run, if any.
pub struct MethodsState {
    pub fns: FnState,
    pub names: spec_fn(Seq<char>) -> nat,
    pub out: Seq<Seq<char>>,
    pub wrappers: Seq<Seq<char>>,
    pub err: Option<CodegenError>,
}

/// One method handled: a method the configuration wants checks both
/// counters, then (unless virtual) emits its function, then (unless
/// variadic) adds its wrapper. An error stops the run.
#[verifier::opaque]
pub open spec fn method_step(ctx: TypeCtx, opts: Options, st: MethodsState, m: MethodDecl) -> MethodsState {
    let base = method_base_name(m);
    if st.err is Some || !method_wanted(opts, m.kind) {
        st
    } else if (st.fns.counts)(m.function.canonical_name@) == u32::MAX || (st.names)(base) == u32::MAX {
        MethodsState { err: Some(CodegenError::TooManyOverloads), ..st }
    } else if is_virtual(m.kind) {
        st
    } else {
        let (fs, out, bad) = fn_step(ctx, st.fns, m.function);
        if bad {
            MethodsState { err: Some(CodegenError::UnknownAbi(m.function.canonical_name, sig_of(ctx, m.function).abi->Unknown_0)), ..st }
        } else if sig_of(ctx, m.function).variadic {
            MethodsState { fns: fs, out: st.out + out, ..st }
        } else {
            MethodsState {
                fns: fs,
                out: st.out + out,
                wrappers: st.wrappers.push(wrapper_text(ctx, m, (st.names)(base))),
                names: |n: Seq<char>| if n == base { (st.names)(n) + 1 } else { (st.names)(n) },
                err: None,
            }
        }
    }
}

pub open spec fn methods_run(ctx: TypeCtx, opts: Options, ms: Seq<MethodDecl>, k: int, start: MethodsState) -> MethodsState
    decreases k,
{
    if k <= 0 { start } else { method_step(ctx, opts, methods_run(ctx, opts, ms, k - 1, start), ms[k - 1]) }
}

pub open spec fn methods_start(r: CodegenResult) -> MethodsState {
    MethodsState { fns: fn_state(r), names: |n: Seq<char>| 0nat, out: Seq::empty(), wrappers: Seq::empty(), err: None }
}

/// What the methods of a composite emit into `r`: each wanted method's
/// extern function, then one inherent impl holding the wrappers; and the
/// error that stopped them, if any (then only what came before it).
pub open spec fn comp_methods_output(ctx: TypeCtx, opts: Options, r: CodegenResult, c: CompDecl, ms: Seq<MethodDecl>)
    -> (Seq<Seq<char>>, Option<CodegenError>)
{
    let st = methods_run(ctx, opts, ms, ms.len() as int, methods_start(r));
    if st.err is Some {
        (st.out, st.err)
    } else if st.wrappers.len() > 0 {
        (st.out.push("impl "@ + c.name@ + " {\n"@ + join(st.wrappers, "\n"@) + "\n}"@), None)
    } else {
        (st.out, None)
    }
}

proof fn methods_err_stays(ctx: TypeCtx, opts: Options, ms: Seq<MethodDecl>, i: int, n: int, start: MethodsState)
    requires
        0 <= i <= n,
        methods_run(ctx, opts, ms, i, start).err is Some,
    ensures
        methods_run(ctx, opts, ms, n, start) == methods_run(ctx, opts, ms, i, start),
    decreases n - i,
{
    reveal(method_step);
    if i < n {
        methods_err_stays(ctx, opts, ms, i, n - 1, start);
    }
}

pub open spec fn result_of(e: Option<CodegenError>) -> Result<(), CodegenError> {
    match e {
        Some(x) => Err(x),
        None => Ok(()),
    }
}

/// Emits the methods of a composite that the configuration asks for, each
/// as an extern function, and their wrappers in one inherent impl.
fn codegen_comp_methods(ctx: &TypeCtx, opts: &Options, result: &mut CodegenResult, c: &CompDecl,
    ms: &Vec<MethodDecl>) -> (r: Result<(), CodegenError>)
    requires
        ctx.wf(),
        old(result).wf(),
        forall|i: int| 0 <= i < ms.len() ==> has_fn_sig(*ctx, #[trigger] ms@[i].function),
    ensures
        final(result).wf(),
        final(result).items_seen == old(result).items_seen,
        final(result).items_text() == old(result).items_text() + comp_methods_output(*ctx, *opts, *old(result), *c, ms@).0,
        r == result_of(comp_methods_output(*ctx, *opts, *old(result), *c, ms@).1),
{
    let ghost start = methods_start(*old(result));
    let mut names = NameCounts::new();
    let mut wrappers: Vec<String> = Vec::new();
    let mut i: usize = 0;
    proof {
        assert(old(result).items_text() + Seq::<Seq<char>>::empty() =~= old(result).items_text());
        assert(names.count_fn() =~= start.names) by {
            assert forall|n: Seq<char>| #[trigger] (names.count_fn())(n) == (start.names)(n) by {}
        }
        assert(views(wrappers@) =~= Seq::<Seq<char>>::empty());
    }
    while i < ms.len()
        invariant
            i <= ms.len(),
            ctx.wf(),
            result.wf(),
            names.wf(),
            result.items_seen == old(result).items_seen,
            forall|k: int| 0 <= k < ms.len() ==> has_fn_sig(*ctx, #[trigger] ms@[k].function),
            start == methods_start(*old(result)),
            methods_run(*ctx, *opts, ms@, i as int, start).err is None,
            fn_state(*result) == methods_run(*ctx, *opts, ms@, i as int, start).fns,
            names.count_fn() == methods_run(*ctx, *opts, ms@, i as int, start).names,
            result.items_text() == old(result).items_text() + methods_run(*ctx, *opts, ms@, i as int, start).out,
            views(wrappers@) == methods_run(*ctx, *opts, ms@, i as int, start).wrappers,
        decreases ms.len() - i,
    {
        let ghost st = methods_run(*ctx, *opts, ms@, i as int, start);
        proof {
            assert(has_fn_sig(*ctx, ms@[i as int].function));
            assert(methods_run(*ctx, *opts, ms@, i + 1, start) == method_step(*ctx, *opts, st, ms@[i as int]));
        }
        let ghost prefix = old(result).items_text();
        match one_method(ctx, opts, result, &mut names, &mut wrappers, &ms[i], Ghost(st), Ghost(prefix)) {
            Ok(()) => {},
            Err(e) => {
                proof {
                    methods_err_stays(*ctx, *opts, ms@, i + 1, ms@.len() as int, start);
                    let fin = methods_run(*ctx, *opts, ms@, ms@.len() as int, start);
                    assert(fin.err is Some);
                    assert(result.items_text() == old(result).items_text() + fin.out);
                    assert(start == methods_start(*old(result)));
                    assert(methods_run(*ctx, *opts, ms@, ms@.len() as int, methods_start(*old(result))) == fin);
                    assert(comp_methods_output(*ctx, *opts, *old(result), *c, ms@).0 == fin.out);
                    assert(comp_methods_output(*ctx, *opts, *old(result), *c, ms@).1 == fin.err);
                    assert(result_of(fin.err) == Err::<(), CodegenError>(e));
                }
                return Err(e);
            },
        }
        i = i + 1;
    }
    let ghost fin = methods_run(*ctx, *opts, ms@, ms@.len() as int, start);
    if wrappers.len() > 0 {
        let mut t = String::from_str("impl ");
        t.append(c.name.as_str());
        t.append(" {\n");
        let j = join_strings(&wrappers, "\n");
        t.append(j.as_str());
        t.append("\n}");
        let ghost before = result.items_text();
        result.push_item(tokens_of(t.as_str()));
        proof {
            assert(result.items_text() =~= old(result).items_text() + fin.out.push(t@));
        }
    }
    Ok(())
}

/// Some child of the module is selected for emission.
pub open spec fn any_enabled(m: ModuleDecl) -> bool {
    exists|k: int| 0 <= k < m.children.len() && (#[trigger] m.children@[k]).enabled
}

/// The opening of the scope a module is emitted as.
pub open spec fn module_header(name: Seq<char>) -> Seq<char> {
    if name == "root"@ {
        "#[allow(non_snake_case, non_camel_case_types, non_upper_case_globals)]\npub mod root {\n"@
    } else {
        "pub mod "@ + name + " {\n"@
    }
}


pub open spec fn abi_error_of(name: String, e: TyError) -> CodegenError {
    CodegenError::UnknownAbi(name, match e {
        TyError::UnknownAbi(c) => c,
        _ => 0,
    })
}

fn abi_error(name: &String, e: TyError) -> (r: CodegenError)
    ensures
        r == abi_error_of(*name, e),
{
    CodegenError::UnknownAbi(name.clone(), match e {
        TyError::UnknownAbi(c) => c,
        _ => 0,
    })
}


fn one_method(ctx: &TypeCtx, opts: &Options, result: &mut CodegenResult, names: &mut NameCounts,
    wrappers: &mut Vec<String>, m: &MethodDecl, st: Ghost<MethodsState>, prefix: Ghost<Seq<Seq<char>>>)
    -> (r: Result<(), CodegenError>)
    requires
        ctx.wf(),
        old(result).wf(),
        old(names).wf(),
        has_fn_sig(*ctx, m.function),
        st@.err is None,
        fn_state(*old(result)) == st@.fns,
        old(names).count_fn() == st@.names,
        old(result).items_text() == prefix@ + st@.out,
        views(old(wrappers)@) == st@.wrappers,
    ensures
        final(result).wf(),
        final(names).wf(),
        final(result).items_seen == old(result).items_seen,
        r == result_of(method_step(*ctx, *opts, st@, *m).err),
        r is Err ==> final(result).items_text() == old(result).items_text()
            && method_step(*ctx, *opts, st@, *m).out == st@.out,
        r is Ok ==> {
            let next = method_step(*ctx, *opts, st@, *m);
            &&& fn_state(*final(result)) == next.fns
            &&& final(names).count_fn() == next.names
            &&& final(result).items_text() == prefix@ + next.out
            &&& views(final(wrappers)@) == next.wrappers
        },
{
    reveal(method_step);
    let wanted = match m.kind {
        MethodKind::Constructor => opts.constructors,
        MethodKind::Destructor | MethodKind::VirtualDestructor => opts.destructors,
        _ => opts.methods,
    };
    if !wanted {
        return Ok(());
    }
    let base = if m.kind == MethodKind::Constructor {
        String::from_str("new")
    } else if m.kind == MethodKind::Destructor {
        String::from_str("destruct")
    } else {
        m.function.name.clone()
    };
    proof {
        assert(base@ == method_base_name(*m));
        assert((st@.fns.counts)(m.function.canonical_name@) == result.overloads(m.function.canonical_name@));
        assert((st@.names)(base@) == names.count(base@));
    }
    if result.overload_count(&m.function.canonical_name) == u32::MAX || names.get(&base) == u32::MAX {
        return Err(CodegenError::TooManyOverloads);
    }
    let ghost mid = *result;
    match codegen_method(ctx, result, names, wrappers, m) {
        Ok(()) => {
            proof {
                let next = method_step(*ctx, *opts, st@, *m);
                if !is_virtual(m.kind) {
                    assert(function_output(*ctx, mid, m.function) == fn_step(*ctx, st@.fns, m.function).1);
                    assert(names.count_fn() =~= next.names);
                    assert(result.items_text() =~= prefix@ + next.out);
                }
            }
            Ok(())
        },
        Err(e) => Err(abi_error(&m.function.canonical_name, e)),
    }
}


/// Why an item other than a module stops the pass: it is ill formed; a
/// function's overload counter is at its maximum, or its calling
/// convention is unknown (with the function named); or its type fails.
pub open spec fn leaf_error(ctx: TypeCtx, opts: Options, r: CodegenResult, item: Item) -> Option<CodegenError> {
    if !leaf_well_formed(ctx, item.kind) {
        Some(CodegenError::IllFormed)
    } else {
        match item.kind {
            ItemKind::Function(f) => if r.overloads(f.canonical_name@) == u32::MAX {
                Some(CodegenError::TooManyOverloads)
            } else if fn_step(ctx, fn_state(r), f).2 {
                Some(CodegenError::UnknownAbi(f.canonical_name, sig_of(ctx, f).abi->Unknown_0))
            } else {
                None
            },
            ItemKind::Type(t) => type_error(ctx, opts, r, t),
            _ => None,
        }
    }
}

/// What an item other than a module adds to the output.
pub open spec fn leaf_output(ctx: TypeCtx, opts: Options, r: CodegenResult, item: Item) -> Seq<Seq<char>> {
    if !leaf_well_formed(ctx, item.kind) {
        Seq::empty()
    } else {
        match item.kind {
            ItemKind::Function(f) => if leaf_error(ctx, opts, r, item) is Some { Seq::empty() } else { function_output(ctx, r, f) },
            ItemKind::Var(v) => var_output(ctx, r, v),
            ItemKind::Type(t) => type_output(ctx, opts, r, item, t),
            _ => Seq::empty(),
        }
    }
}

} // verus!
