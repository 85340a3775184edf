use bindgen_codegen::comp::{FieldAccessorKind, codegen_comp, BaseDecl, CompDecl, CompOptions, DataField, DeriveCaps, FieldDecl};
use bindgen_codegen::driver::{codegen, codegen_item, CodegenError, Item, ItemKind, ModuleDecl, Options, TypeDecl};
use bindgen_codegen::enums::{codegen_enum, EnumDecl, EnumVariation};
use bindgen_codegen::function::FunctionDecl;
use bindgen_codegen::ir::{Abi, FunctionSig, IntKind, TypeCtx, TypeItem, TypeKind};
use bindgen_codegen::layout::Layout;
use bindgen_codegen::result::CodegenResult;

fn ty(kind: TypeKind, name: &str, layout: Option<Layout>) -> TypeItem {
    TypeItem {
        kind,
        name: name.to_string(),
        path: vec![name.to_string()],
        is_const: false,
        is_opaque: false,
        layout,
        params: vec![],
        param_used: vec![],
    }
}

fn l(size: u64, align: u64) -> Option<Layout> {
    Some(Layout { size, align })
}

fn comp(name: &str, layout: Option<Layout>, fields: Vec<FieldDecl>) -> CompDecl {
    CompDecl {
        name: name.to_string(),
        is_union: false,
        packed: false,
        layout,
        is_opaque: false,
        needs_explicit_vtable: false,
        bases: vec![],
        fields,
        method_names: vec![],
        template_params: vec![],
        has_non_type_template_params: false,
        is_forward_declaration: false,
        is_unsized: false,
        can_be_rust_union: false,
        comment: None,
        derives: DeriveCaps { debug: true, default: false, copy: false, hash: false, partialeq: false, eq: false },
        private_fields: false,
        accessor_kind: FieldAccessorKind::NoAccessor,
    }
}

fn opts() -> CompOptions {
    CompOptions { derive_debug: true, impl_debug: false, derive_copy: true, derive_default: false, layout_tests: false, const_fn: true, namespaces: false }
}

fn emit(ctx: &TypeCtx, c: &CompDecl) -> Vec<String> {
    let mut r = CodegenResult::new(0);
    codegen_comp(ctx, &opts(), &mut r, c);
    r.items.iter().map(|t| t.as_str().to_string()).collect()
}

fn ctx() -> TypeCtx {
    TypeCtx {
        namespaces: false,
        types: vec![
            ty(TypeKind::Int(IntKind::Int), "int", l(4, 4)),
            ty(TypeKind::Comp(false), "Base", l(4, 4)),
            ty(TypeKind::Comp(false), "Empty", l(0, 1)),
            ty(TypeKind::Array(0, 0), "int[]", l(0, 4)),
        ],
    }
}

#[test]
fn class_with_vtable_and_bases() {
    let mut c = comp("Derived", l(16, 8), vec![FieldDecl::Data(DataField { name: None, ty: 0, offset_bits: Some(96), private: None, accessor: None })]);
    c.needs_explicit_vtable = true;
    c.bases = vec![
        BaseDecl { ty: 1, is_virtual: false, has_vtable: false },
        BaseDecl { ty: 2, is_virtual: false, has_vtable: false },
        BaseDecl { ty: 1, is_virtual: true, has_vtable: false },
    ];
    let items = emit(&ctx(), &c);
    assert_eq!(items[0], "#[repr(C)]\npub struct Derived__bindgen_vtable(::std::os::raw::c_void);");
    assert_eq!(
        items[1],
        "#[repr(C)]\n#[derive(Debug)]\npub struct Derived {\npub vtable_: *const Derived__bindgen_vtable,\npub _base: Base,\npub __bindgen_anon_1: ::std::os::raw::c_int,\n}"
    );
}

#[test]
fn forward_declaration_and_skipped_template() {
    let mut f = comp("Fwd", None, vec![]);
    f.is_forward_declaration = true;
    assert_eq!(emit(&ctx(), &f), vec!["#[repr(C)]\n#[derive(Debug, Copy, Clone)]\npub struct Fwd {\n_unused: [u8; 0],\n}".to_string()]);
    let mut t = comp("Arr", l(4, 4), vec![]);
    t.has_non_type_template_params = true;
    assert_eq!(emit(&ctx(), &t), Vec::<String>::new());
}

#[test]
fn unsized_struct_gets_address() {
    let mut e = comp("Empty", l(1, 1), vec![]);
    e.is_unsized = true;
    let items = emit(&ctx(), &e);
    assert_eq!(items[0], "#[repr(C)]\n#[derive(Debug)]\npub struct Empty {\npub _address: u8,\n}");
}

#[test]
fn flexible_array_member_and_packed() {
    let mut c = comp("Msg", l(4, 4), vec![
        FieldDecl::Data(DataField { name: Some("len".to_string()), ty: 0, offset_bits: Some(0), private: None, accessor: None }),
        FieldDecl::Data(DataField { name: Some("data".to_string()), ty: 3, offset_bits: Some(32), private: None, accessor: None }),
    ]);
    c.packed = true;
    let mut r = CodegenResult::new(0);
    codegen_comp(&ctx(), &opts(), &mut r, &c);
    assert!(r.saw_incomplete_array);
    assert!(!r.saw_union);
    assert_eq!(
        r.items[0].as_str(),
        "#[repr(C, packed)]\n#[derive(Debug)]\npub struct Msg {\npub len: ::std::os::raw::c_int,\npub data: __IncompleteArrayField<::std::os::raw::c_int>,\n}"
    );
}

#[test]
fn rust_union_uses_language_union() {
    let mut u = comp("U", l(4, 4), vec![FieldDecl::Data(DataField { name: Some("a".to_string()), ty: 0, offset_bits: Some(0), private: None, accessor: None })]);
    u.is_union = true;
    u.can_be_rust_union = true;
    let mut r = CodegenResult::new(0);
    codegen_comp(&ctx(), &opts(), &mut r, &u);
    assert!(r.saw_union);
    assert!(!r.saw_bindgen_union);
    assert_eq!(
        r.items[0].as_str(),
        "#[repr(C)]\n#[derive(Debug)]\npub union U {\npub a: ::std::os::raw::c_int,\n_bindgen_union_align: u32,\n}"
    );
}

#[test]
fn empty_enum_has_no_repr() {
    let e = EnumDecl {
        name: "E".to_string(),
        rust_ty: "E".to_string(),
        named: true,
        parent_name: None,
        comment: Some("nothing".to_string()),
        repr_signed: true,
        repr_size: 3,
        variants: vec![],
    };
    assert_eq!(
        codegen_enum(&e, EnumVariation::Rust, false),
        vec!["/// nothing\n#[derive(Debug, Copy, Clone, PartialEq, Eq, Hash)]\npub enum E {\n}".to_string()]
    );
    assert_eq!(codegen_enum(&e, EnumVariation::Consts, false), vec!["pub type E = i32;".to_string()]);
}

fn options() -> Options {
    Options {
        conservative_inline_namespaces: false,
        methods: true,
        constructors: true,
        destructors: true,
        prepend_enum_name: false,
        objc_extern_crate: true,
        comp: opts(),
    }
}

#[test]
fn overload_counter_exhausted() {
    let c = TypeCtx {
        namespaces: false,
        types: vec![
            ty(TypeKind::Void, "void", None),
            ty(TypeKind::Function(FunctionSig { ret: 0, args: vec![], abi: Abi::C, variadic: false }), "fn", None),
        ],
    };
    let mut r = CodegenResult::new(0);
    r.overload_counters.entries.push(("f".to_string(), u32::MAX));
    let f = FunctionDecl {
        name: "f".to_string(),
        canonical_name: "f".to_string(),
        mangled_name: None,
        comment: None,
        has_template_params: false,
        signature: 1,
    };
    let item = Item { id: 1, hidden: false, enabled: true, depth: 0, comment: None, kind: ItemKind::Function(f) };
    assert_eq!(codegen_item(&c, &options(), &mut r, &item, false), Err(CodegenError::TooManyOverloads));
}

#[test]
fn context_referring_forward_is_refused() {
    let c = TypeCtx { namespaces: false, types: vec![ty(TypeKind::Pointer(1), "p", l(8, 8)), ty(TypeKind::Int(IntKind::Int), "int", l(4, 4))] };
    let item = Item { id: 1, hidden: false, enabled: true, depth: 0, comment: None, kind: ItemKind::Type(TypeDecl::ObjC) };
    assert_eq!(codegen(&c, &options(), &item).err(), Some(CodegenError::IllFormed));
    let ok = TypeCtx { namespaces: false, types: vec![ty(TypeKind::Int(IntKind::Int), "int", l(4, 4))] };
    let out = codegen(&ok, &options(), &item).unwrap();
    assert!(out.is_empty());
    let mut hidden = item;
    hidden.hidden = true;
    let mut r = CodegenResult::new(0);
    assert_eq!(codegen_item(&ok, &options(), &mut r, &hidden, true), Ok(()));
    assert!(!r.saw_objc);
}

#[test]
fn private_fields_and_getters() {
    let mut c = comp("P", l(8, 4), vec![
        FieldDecl::Data(DataField { name: Some("a".to_string()), ty: 0, offset_bits: Some(0), private: None, accessor: None }),
        FieldDecl::Data(DataField {
            name: Some("b".to_string()),
            ty: 0,
            offset_bits: Some(32),
            private: Some(false),
            accessor: Some(FieldAccessorKind::Immutable),
        }),
    ]);
    c.private_fields = true;
    c.accessor_kind = FieldAccessorKind::Unsafe;
    let items = emit(&ctx(), &c);
    assert_eq!(items[0], "#[repr(C)]\n#[derive(Debug)]\npub struct P {\na: ::std::os::raw::c_int,\npub b: ::std::os::raw::c_int,\n}");
    assert_eq!(
        items[1],
        "impl P {\n#[inline]\npub unsafe fn get_a(&self) -> &::std::os::raw::c_int {\n&self.a\n}\n#[inline]\npub unsafe fn get_a_mut(&mut self) -> &mut ::std::os::raw::c_int {\n&mut self.a\n}\n#[inline]\npub fn get_b(&self) -> &::std::os::raw::c_int {\n&self.b\n}\n}"
    );
}

#[test]
fn root_helpers_in_order() {
    let c = TypeCtx {
        namespaces: false,
        types: vec![ty(TypeKind::Complex(bindgen_codegen::ir::FloatKind::Float), "cf", l(8, 4)), ty(TypeKind::Int(IntKind::Int), "int", l(4, 4))],
    };
    let objc = Item { id: 2, hidden: false, enabled: true, depth: 0, comment: None, kind: ItemKind::Type(TypeDecl::ObjC) };
    let root = Item {
        id: 1,
        hidden: false,
        enabled: true,
        depth: 0,
        comment: None,
        kind: ItemKind::Module(ModuleDecl { name: "root".to_string(), is_inline: false, children: vec![objc] }),
    };
    let out = codegen(&c, &options(), &root).unwrap();
    let items: Vec<&str> = out.iter().map(|t| t.as_str()).collect();
    assert_eq!(items.len(), 3);
    assert_eq!(items[0], "#[macro_use]\nextern crate objc;");
    assert_eq!(items[1], "#[allow(non_camel_case_types)]\npub type id = *mut objc::runtime::Object;");
    assert!(items[2].starts_with("#[derive(PartialEq, Copy, Clone, Hash, Debug, Default)]\n#[repr(C)]\npub struct __BindgenComplex<T>"));
}

#[test]
fn wide_bitfield_unit_keeps_storage() {
    let unit = bindgen_codegen::bitfield::BitfieldUnit {
        nth: 2,
        layout: Layout { size: 16, align: 8 },
        bitfields: vec![bindgen_codegen::bitfield::Bitfield {
            name: "big".to_string(),
            offset: 100,
            width: 20,
            ty_layout: Layout { size: 8, align: 8 },
            ty: "u64".to_string(),
            signed: false,
        }],
    };
    let c = comp("W", l(16, 8), vec![FieldDecl::Bitfields(unit)]);
    let mut r = CodegenResult::new(0);
    let item = Item { id: 5, hidden: false, enabled: true, depth: 0, comment: None, kind: ItemKind::Type(TypeDecl::Comp(c, vec![])) };
    assert_eq!(codegen_item(&ctx(), &options(), &mut r, &item, false), Ok(()));
    let items: Vec<&str> = r.items.iter().map(|t| t.as_str()).collect();
    assert_eq!(items, vec!["#[repr(C)]\n#[derive(Debug)]\npub struct W {\npub _bitfield_2: [u64; 2usize],\npub __bindgen_align: [u64; 0usize],\n}"]);
}

#[test]
fn unknown_abi_context_refused() {
    let c = TypeCtx {
        namespaces: false,
        types: vec![
            ty(TypeKind::Void, "void", None),
            ty(TypeKind::Function(FunctionSig { ret: 0, args: vec![], abi: Abi::Unknown(9), variadic: false }), "cb", l(8, 8)),
        ],
    };
    let item = Item { id: 1, hidden: false, enabled: true, depth: 0, comment: None, kind: ItemKind::Type(TypeDecl::ObjC) };
    assert_eq!(codegen(&c, &options(), &item).err(), Some(CodegenError::UnknownAbi("cb".to_string(), 9)));
}

#[test]
fn hand_written_debug() {
    let mut c = comp("D", l(8, 4), vec![
        FieldDecl::Data(DataField { name: Some("a".to_string()), ty: 0, offset_bits: Some(0), private: None, accessor: None }),
        FieldDecl::Data(DataField { name: Some("b".to_string()), ty: 0, offset_bits: Some(32), private: None, accessor: None }),
    ]);
    c.derives.debug = false;
    let mut o = opts();
    o.impl_debug = true;
    let mut r = CodegenResult::new(0);
    codegen_comp(&ctx(), &o, &mut r, &c);
    assert_eq!(
        r.items[1].as_str(),
        "impl ::std::fmt::Debug for D {\nfn fmt(&self, f: &mut ::std::fmt::Formatter) -> ::std::fmt::Result {\nwrite!(f, \"D {{ a: {:?}, b: {:?} }}\", self.a, self.b)\n}\n}"
    );
    c.is_union = true;
    let mut r = CodegenResult::new(0);
    codegen_comp(&ctx(), &o, &mut r, &c);
    assert!(r.items.iter().any(|t| t.as_str().contains("write!(f, \"D {{ union }}\")")));
}
