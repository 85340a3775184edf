use bindgen_codegen::bitfield::{get_bitfield, get_signed_bitfield, set_bitfield, unit_ctor_value, Bitfield};
use bindgen_codegen::driver::{codegen_item, CodegenError, Item, ItemKind, ModuleDecl, Options, TypeDecl};
use bindgen_codegen::comp::CompOptions;
use bindgen_codegen::function::{codegen_function, FunctionDecl};
use bindgen_codegen::ir::{Abi, FunctionSig, IntKind, TypeCtx, TypeItem, TypeKind};
use bindgen_codegen::layout::{Layout, StructLayoutTracker};
use bindgen_codegen::module::{prepend_union_types, root_import, top_level_path};
use bindgen_codegen::result::CodegenResult;
use bindgen_codegen::var::{codegen_var, VarDecl};

fn ty(kind: TypeKind, name: &str) -> TypeItem {
    TypeItem {
        kind,
        name: name.to_string(),
        path: vec![name.to_string()],
        is_const: false,
        is_opaque: false,
        layout: Some(Layout { size: 4, align: 4 }),
        params: vec![],
        param_used: vec![],
    }
}

fn bf(offset: u64, width: u64) -> Bitfield {
    Bitfield { name: "x".to_string(), offset, width, ty_layout: Layout { size: 4, align: 4 }, ty: "u32".to_string(), signed: false }
}

#[test]
fn bitfield_set_then_get() {
    let units = [0u64, u64::MAX, 0x0123_4567_89ab_cdef];
    for &unit in units.iter() {
        for &(offset, width) in [(0u64, 1u64), (3, 5), (60, 4), (0, 64), (17, 13)].iter() {
            let max = if width == 64 { u64::MAX } else { (1u64 << width) - 1 };
            for &v in [0, 1, max / 2, max].iter() {
                let u = set_bitfield(unit, offset, width, v);
                assert_eq!(get_bitfield(u, offset, width), v);
            }
        }
    }
}

#[test]
fn bitfield_set_keeps_other_bits() {
    let u = set_bitfield(0xffff_ffff, 4, 4, 0);
    assert_eq!(u, 0xffff_ff0f);
    assert_eq!(get_bitfield(u, 0, 4), 0xf);
    assert_eq!(get_bitfield(u, 8, 24), 0xff_ffff);
}

#[test]
fn unit_constructor_then_getters() {
    let fields = vec![bf(0, 3), bf(3, 1), bf(4, 12), bf(16, 16)];
    let vals = vec![5, 1, 0xabc, 0xffff];
    let unit = unit_ctor_value(&fields, &vals);
    for (f, v) in fields.iter().zip(vals.iter()) {
        assert_eq!(get_bitfield(unit, f.offset, f.width), *v);
    }
    assert_eq!(unit, 0xffff_abcd);
}

fn fn_ctx() -> TypeCtx {
    TypeCtx {
        namespaces: false,
        types: vec![
            ty(TypeKind::Int(IntKind::Int), "int"),
            ty(TypeKind::Function(FunctionSig { ret: 0, args: vec![(None, 0)], abi: Abi::C, variadic: false }), "fn"),
        ],
    }
}

fn overload(mangled: &str) -> FunctionDecl {
    FunctionDecl {
        name: "foo".to_string(),
        canonical_name: "foo".to_string(),
        mangled_name: Some(mangled.to_string()),
        comment: None,
        has_template_params: false,
        signature: 1,
    }
}

#[test]
fn overloads_get_numbered_identifiers() {
    let ctx = fn_ctx();
    let mut r = CodegenResult::new(0);
    for m in ["_Z3fooi", "_Z3fool", "_Z3foos"].iter() {
        assert_eq!(codegen_function(&ctx, &mut r, &overload(m)), Ok(()));
    }
    let items: Vec<String> = r.items.iter().map(|t| t.as_str().to_string()).collect();
    assert_eq!(
        items,
        vec![
            "extern \"C\" {\n#[link_name = \"_Z3fooi\"]\npub fn foo(arg1: ::std::os::raw::c_int) -> ::std::os::raw::c_int;\n}".to_string(),
            "extern \"C\" {\n#[link_name = \"_Z3fool\"]\npub fn foo1(arg1: ::std::os::raw::c_int) -> ::std::os::raw::c_int;\n}".to_string(),
            "extern \"C\" {\n#[link_name = \"_Z3foos\"]\npub fn foo2(arg1: ::std::os::raw::c_int) -> ::std::os::raw::c_int;\n}".to_string(),
        ]
    );
}

#[test]
fn same_symbol_declared_once() {
    let ctx = fn_ctx();
    let mut r = CodegenResult::new(0);
    assert_eq!(codegen_function(&ctx, &mut r, &overload("_Z3fooi")), Ok(()));
    assert_eq!(codegen_function(&ctx, &mut r, &overload("_Z3fooi")), Ok(()));
    assert_eq!(r.items.len(), 1);
    let var = VarDecl {
        name: "bar".to_string(),
        canonical_name: "bar".to_string(),
        mangled_name: None,
        has_template_params: false,
        ty: 0,
        value: None,
    };
    codegen_var(&ctx, &mut r, &var);
    codegen_var(&ctx, &mut r, &var);
    assert_eq!(r.items.len(), 2);
    assert_eq!(r.items[1].as_str(), "extern \"C\" {\npub static mut bar: ::std::os::raw::c_int;\n}");
}

fn options() -> Options {
    Options {
        conservative_inline_namespaces: false,
        methods: true,
        constructors: true,
        destructors: true,
        prepend_enum_name: true,
        objc_extern_crate: false,
        comp: CompOptions { derive_debug: true, impl_debug: false, derive_copy: true, derive_default: false, layout_tests: false, const_fn: false, namespaces: false },
    }
}

fn fn_item(id: u64, f: FunctionDecl) -> Item {
    Item { id, hidden: false, enabled: true, depth: 0, comment: None, kind: ItemKind::Function(f) }
}

#[test]
fn item_emitted_once_per_id() {
    let ctx = fn_ctx();
    let mut r = CodegenResult::new(0);
    let item = fn_item(9, overload("_Z3fooi"));
    assert_eq!(codegen_item(&ctx, &options(), &mut r, &item, false), Ok(()));
    let other_symbol = fn_item(9, overload("_Z3fool"));
    assert_eq!(codegen_item(&ctx, &options(), &mut r, &other_symbol, false), Ok(()));
    assert_eq!(r.items.len(), 1);
    assert!(r.seen(9));
}

#[test]
fn ill_formed_item_is_refused() {
    let ctx = fn_ctx();
    let mut r = CodegenResult::new(0);
    let mut f = overload("_Z3fooi");
    f.signature = 0;
    assert_eq!(codegen_item(&ctx, &options(), &mut r, &fn_item(1, f), false), Err(CodegenError::IllFormed));
    assert_eq!(r.items.len(), 0);
}

#[test]
fn unknown_abi_is_an_error() {
    let mut ctx = fn_ctx();
    ctx.types[1].kind = TypeKind::Function(FunctionSig { ret: 0, args: vec![], abi: Abi::Unknown(7), variadic: false });
    let mut r = CodegenResult::new(0);
    let item = fn_item(2, overload("_Z3fooi"));
    assert_eq!(codegen_item(&ctx, &options(), &mut r, &item, false), Err(CodegenError::UnknownAbi("foo".to_string(), 7)));
    assert_eq!(r.items.len(), 0);
}

#[test]
fn namespace_paths_match_depth() {
    let p: Vec<String> = top_level_path(true, 2);
    assert_eq!(p, vec!["self".to_string(), "super".to_string(), "super".to_string()]);
    assert_eq!(top_level_path(false, 2), vec!["self".to_string()]);
    let t = root_import(2, &"root".to_string());
    assert_eq!(t.as_str(), "#[allow(unused_imports)]\nuse self::super::super::root;");
}

#[test]
fn nested_namespace_imports_root() {
    let ctx = fn_ctx();
    let inner = Item {
        id: 2,
        hidden: false,
        enabled: true,
        depth: 1,
        comment: None,
        kind: ItemKind::Module(ModuleDecl {
            name: "ns".to_string(),
            is_inline: false,
            children: vec![fn_item(3, overload("_Z3fooi"))],
        }),
    };
    let root = Item {
        id: 1,
        hidden: false,
        enabled: true,
        depth: 0,
        comment: None,
        kind: ItemKind::Module(ModuleDecl { name: "root".to_string(), is_inline: false, children: vec![inner] }),
    };
    let mut opts = options();
    opts.comp.namespaces = true;
    let mut r = CodegenResult::new(0);
    assert_eq!(codegen_item(&ctx, &opts, &mut r, &root, true), Ok(()));
    assert_eq!(r.items.len(), 1);
    let text = r.items[0].as_str();
    assert!(text.contains("pub mod ns {\n#[allow(unused_imports)]\nuse self::super::root;\n"));
    assert!(text.starts_with("#[allow(non_snake_case, non_camel_case_types, non_upper_case_globals)]\npub mod root {\n#[allow(unused_imports)]\nuse self::root;\n"));
}

#[test]
fn union_field_helper_defaults() {
    let mut items = Vec::new();
    prepend_union_types(&mut items);
    let all: Vec<&str> = items.iter().map(|t| t.as_str()).collect();
    assert!(all.contains(&"impl<T> ::std::default::Default for __BindgenUnionField<T> {\n#[inline]\nfn default() -> Self {\nSelf::new()\n}\n}"));
    assert!(all.contains(&"impl<T> ::std::clone::Clone for __BindgenUnionField<T> {\n#[inline]\nfn clone(&self) -> Self {\nSelf::new()\n}\n}"));
    assert_eq!(all.len(), 9);
}

#[test]
fn padding_reaches_field_offset() {
    let mut t = StructLayoutTracker::new(false);
    let byte = Layout { size: 1, align: 1 };
    assert_eq!(t.pad_field(byte, Some(0)), None);
    let pad = t.pad_field(byte, Some(64));
    assert_eq!(pad, Some("pub __bindgen_padding_0: [u8; 7usize],".to_string()));
    assert_eq!(t.latest_offset, 9);
    let tail = t.pad_struct(Layout { size: 12, align: 4 });
    assert_eq!(tail, None);
    let tail = t.pad_struct(Layout { size: 16, align: 1 });
    assert_eq!(tail, Some("pub __bindgen_padding_1: [u8; 7usize],".to_string()));
    assert_eq!(t.align_struct(Layout { size: 16, align: 8 }), Some("pub __bindgen_align: [u64; 0usize],".to_string()));
}

#[test]
fn signed_bitfield_round_trip() {
    for &(offset, width) in [(0u64, 3u64), (5, 7), (32, 32), (0, 64)].iter() {
        let low = if width == 64 { u64::MAX } else { (1u64 << width) - 1 };
        let min = -(1i64 << (width - 1).min(62));
        for &v in [-1i64, 0, 1, min, -(min + 1)].iter() {
            if width < 64 && (v < -(1i64 << (width - 1)) || v >= (1i64 << (width - 1))) {
                continue;
            }
            let bits = v as u64;
            let u = set_bitfield(0x5555_5555_5555_5555, offset, width, bits);
            assert_eq!(get_bitfield(u, offset, width), bits & low);
            assert_eq!(get_signed_bitfield(u, offset, width) as i64, v);
        }
    }
}
