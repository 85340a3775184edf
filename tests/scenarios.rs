use bindgen_codegen::bitfield::{get_bitfield, mask, set_bitfield, unit_ctor_value, Bitfield};
use bindgen_codegen::comp::{FieldAccessorKind, codegen_comp, BaseDecl, CompDecl, CompOptions, DataField, DeriveCaps, FieldDecl};
use bindgen_codegen::driver::{codegen, Item, ItemKind, ModuleDecl, Options, TypeDecl};
use bindgen_codegen::enums::{codegen_enum, EnumDecl, EnumVariant, EnumVariation, VariantValue};
use bindgen_codegen::function::{codegen_function, FunctionDecl};
use bindgen_codegen::ir::{Abi, FloatKind, FunctionSig, IntKind, TypeCtx, TypeItem, TypeKind};
use bindgen_codegen::layout::Layout;
use bindgen_codegen::result::CodegenResult;

fn ty(kind: TypeKind, name: &str, layout: Option<Layout>) -> TypeItem {
    TypeItem {
        kind,
        name: name.to_string(),
        path: vec![name.to_string()],
        is_const: false,
        is_opaque: false,
        layout,
        params: vec![],
        param_used: vec![],
    }
}

fn l(size: u64, align: u64) -> Option<Layout> {
    Some(Layout { size, align })
}

fn comp(name: &str, layout: Option<Layout>, fields: Vec<FieldDecl>) -> CompDecl {
    CompDecl {
        name: name.to_string(),
        is_union: false,
        packed: false,
        layout,
        is_opaque: false,
        needs_explicit_vtable: false,
        bases: Vec::<BaseDecl>::new(),
        fields,
        method_names: vec![],
        template_params: vec![],
        has_non_type_template_params: false,
        is_forward_declaration: false,
        is_unsized: false,
        can_be_rust_union: false,
        comment: None,
        derives: DeriveCaps { debug: true, default: true, copy: true, hash: false, partialeq: false, eq: false },
        private_fields: false,
        accessor_kind: FieldAccessorKind::NoAccessor,
    }
}

fn opts() -> CompOptions {
    CompOptions { derive_debug: true, impl_debug: false, derive_copy: true, derive_default: true, layout_tests: true, const_fn: false, namespaces: false }
}

fn data(name: &str, ty: usize, offset_bits: u64) -> FieldDecl {
    FieldDecl::Data(DataField { name: Some(name.to_string()), ty, offset_bits: Some(offset_bits), private: None, accessor: None })
}

fn texts(r: &CodegenResult) -> Vec<String> {
    r.items.iter().map(|t| t.as_str().to_string()).collect()
}

#[test]
fn two_bool_bitfields_masks() {
    assert_eq!(mask(0, 1), 0b0000_0001);
    assert_eq!(mask(1, 7), 0b1111_1110);
    let bfs = vec![
        Bitfield { name: "a".to_string(), offset: 0, width: 1, ty_layout: Layout { size: 1, align: 1 }, ty: "bool".to_string(), signed: false },
        Bitfield { name: "b".to_string(), offset: 1, width: 7, ty_layout: Layout { size: 1, align: 1 }, ty: "bool".to_string(), signed: false },
    ];
    let unit = unit_ctor_value(&bfs, &vec![1, 1]);
    assert_eq!(unit, 0b0000_0011);
    assert_eq!(get_bitfield(unit, 0, 1), 1);
    assert_eq!(get_bitfield(unit, 1, 7), 1);
    let cleared = set_bitfield(unit, 0, 1, 0);
    assert_eq!(cleared, 0b0000_0010);
}

#[test]
fn template_definition_with_used_parameter() {
    let ctx = TypeCtx { namespaces: false, types: vec![ty(TypeKind::TypeParam, "T", None)] };
    let mut c = comp("foo", None, vec![data("data", 0, 0)]);
    c.template_params = vec!["T".to_string()];
    c.derives = DeriveCaps { debug: true, default: false, copy: true, hash: true, partialeq: true, eq: true };
    let mut r = CodegenResult::new(0);
    codegen_comp(&ctx, &opts(), &mut r, &c);
    let items = texts(&r);
    assert_eq!(items.len(), 2);
    assert_eq!(
        items[0],
        "#[repr(C)]\n#[derive(Debug, Copy, Clone, Hash, PartialEq, Eq)]\npub struct foo<T> {\npub data: T,\npub _phantom_0: ::std::marker::PhantomData<::std::cell::UnsafeCell<T>>,\n}"
    );
    assert_eq!(items[1], "impl<T> Default for foo<T> {\nfn default() -> Self {\nunsafe { ::std::mem::zeroed() }\n}\n}");
}

fn void_fn_ctx() -> TypeCtx {
    TypeCtx {
        namespaces: false,
        types: vec![
            ty(TypeKind::Void, "void", None),
            ty(TypeKind::Function(FunctionSig { ret: 0, args: vec![], abi: Abi::C, variadic: false }), "fn", None),
        ],
    }
}

fn foo_decl(mangled: Option<&str>) -> FunctionDecl {
    FunctionDecl {
        name: "foo".to_string(),
        canonical_name: "foo".to_string(),
        mangled_name: mangled.map(|m| m.to_string()),
        comment: None,
        has_template_params: false,
        signature: 1,
    }
}

#[test]
fn redeclared_c_function_emitted_once() {
    let ctx = void_fn_ctx();
    let mut r = CodegenResult::new(0);
    assert_eq!(codegen_function(&ctx, &mut r, &foo_decl(None)), Ok(()));
    assert_eq!(codegen_function(&ctx, &mut r, &foo_decl(None)), Ok(()));
    let items = texts(&r);
    assert_eq!(items, vec!["extern \"C\" {\npub fn foo();\n}".to_string()]);
}

fn union_module(ids: &[u64]) -> Item {
    let children = ids
        .iter()
        .map(|&id| {
            let mut u = comp(&format!("U{}", id), l(4, 4), vec![data("a", 0, 0), data("b", 1, 0)]);
            u.is_union = true;
            u.derives.default = false;
            Item {
                id,
                hidden: false,
                enabled: true,
                depth: 0,
                comment: None,
                kind: ItemKind::Type(TypeDecl::Comp(u, vec![])),
            }
        })
        .collect();
    Item {
        id: 0,
        hidden: false,
        enabled: true,
        depth: 0,
        comment: None,
        kind: ItemKind::Module(ModuleDecl { name: "root".to_string(), is_inline: false, children }),
    }
}

fn pass_options(namespaces: bool) -> Options {
    Options {
        conservative_inline_namespaces: false,
        methods: true,
        constructors: true,
        destructors: true,
        prepend_enum_name: true,
        objc_extern_crate: false,
        comp: CompOptions { derive_debug: true, impl_debug: false, derive_copy: true, derive_default: false, layout_tests: false, const_fn: false, namespaces },
    }
}

fn scalar_ctx() -> TypeCtx {
    TypeCtx {
        namespaces: false,
        types: vec![
            ty(TypeKind::Int(IntKind::Int), "int", l(4, 4)),
            ty(TypeKind::Float(FloatKind::Float), "float", l(4, 4)),
        ],
    }
}

#[test]
fn anonymous_union_not_unionable() {
    let ctx = scalar_ctx();
    let out = codegen(&ctx, &pass_options(false), &union_module(&[7, 8])).unwrap();
    let items: Vec<String> = out.iter().map(|t| t.as_str().to_string()).collect();
    let helper = "#[repr(C)]\npub struct __BindgenUnionField<T>(::std::marker::PhantomData<T>);";
    assert_eq!(items[0], helper);
    assert_eq!(items.iter().filter(|t| t.as_str() == helper).count(), 1);
    assert!(items.contains(
        &"#[repr(C)]\n#[derive(Debug, Copy)]\npub struct U7 {\npub a: __BindgenUnionField<::std::os::raw::c_int>,\npub b: __BindgenUnionField<f32>,\npub bindgen_union_field: u32,\n}".to_string()
    ));
    assert!(items.iter().any(|t| t.starts_with("#[repr(C)]\n#[derive(Debug, Copy)]\npub struct U8 {")));
}

#[test]
fn enum_with_duplicate_value() {
    let v = |name: &str, value: u64| EnumVariant {
        name: name.to_string(),
        value: VariantValue::Unsigned(value),
        hidden: false,
        force_constification: false,
    };
    let e = EnumDecl {
        name: "E".to_string(),
        rust_ty: "E".to_string(),
        named: true,
        parent_name: None,
        comment: None,
        repr_signed: false,
        repr_size: 4,
        variants: vec![v("A", 1), v("B", 1), v("C", 2)],
    };
    let items = codegen_enum(&e, EnumVariation::Rust, true);
    assert_eq!(
        items,
        vec![
            "pub const E_B: E = E::A;".to_string(),
            "#[repr(u32)]\n#[derive(Debug, Copy, Clone, PartialEq, Eq, Hash)]\npub enum E {\nA = 1,\nC = 2,\n}".to_string(),
        ]
    );
}

#[test]
fn emitter_is_deterministic() {
    let ctx = scalar_ctx();
    let a = codegen(&ctx, &pass_options(true), &union_module(&[3, 4])).unwrap();
    let b = codegen(&ctx, &pass_options(true), &union_module(&[3, 4])).unwrap();
    let ta: Vec<String> = a.iter().map(|t| t.as_str().to_string()).collect();
    let tb: Vec<String> = b.iter().map(|t| t.as_str().to_string()).collect();
    assert_eq!(ta, tb);
    assert_eq!(ta.len(), 1);
    assert!(ta[0].starts_with(
        "#[allow(non_snake_case, non_camel_case_types, non_upper_case_globals)]\npub mod root {\n#[repr(C)]\npub struct __BindgenUnionField<T>"
    ));
    assert!(ta[0].contains("\n#[allow(unused_imports)]\nuse self::root;\n"));
    assert!(ta[0].contains("pub a: root::__BindgenUnionField<::std::os::raw::c_int>,"));
}

#[test]
fn signed_bitfield_getter_sign_extends() {
    let ctx = TypeCtx { namespaces: false, types: vec![ty(TypeKind::Int(IntKind::Int), "int", l(4, 4))] };
    let unit = bindgen_codegen::bitfield::BitfieldUnit {
        nth: 1,
        layout: Layout { size: 1, align: 1 },
        bitfields: vec![Bitfield {
            name: "s".to_string(),
            offset: 2,
            width: 3,
            ty_layout: Layout { size: 4, align: 4 },
            ty: "::std::os::raw::c_int".to_string(),
            signed: true,
        }],
    };
    let c = comp("S", l(1, 1), vec![FieldDecl::Bitfields(unit)]);
    let mut r = CodegenResult::new(0);
    codegen_comp(&ctx, &opts(), &mut r, &c);
    let methods = r.items.last().unwrap().as_str();
    assert!(methods.contains(
        "let val = (unit_field_val & mask) >> 2usize;\nlet val = (((val as u64) << 61usize) as i64 >> 61usize) as u64;\nunsafe { ::std::mem::transmute(val as u32) }"
    ));
}
