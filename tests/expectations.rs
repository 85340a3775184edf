use bindgen_codegen::bitfield::{Bitfield, BitfieldUnit};
use bindgen_codegen::comp::{FieldAccessorKind, codegen_comp, BaseDecl, CompDecl, CompOptions, DataField, DeriveCaps, FieldDecl};
use bindgen_codegen::ir::{FloatKind, IntKind, TypeCtx, TypeItem, TypeKind};
use bindgen_codegen::layout::Layout;
use bindgen_codegen::result::CodegenResult;
use bindgen_codegen::typedecl::codegen_instantiation;

fn ty(kind: TypeKind, name: &str, layout: Option<Layout>) -> TypeItem {
    TypeItem {
        kind,
        name: name.to_string(),
        path: vec![name.to_string()],
        is_const: false,
        is_opaque: false,
        layout,
        params: vec![],
        param_used: vec![],
    }
}

fn l(size: u64, align: u64) -> Option<Layout> {
    Some(Layout { size, align })
}

/// int, T, template<T> struct foo { T data; }, foo<int>, float, foo<float>.
fn template_ctx() -> TypeCtx {
    let mut foo = ty(TypeKind::Comp(false), "foo", l(4, 4));
    foo.params = vec![1];
    foo.param_used = vec![true];
    TypeCtx {
        namespaces: false,
        types: vec![
            ty(TypeKind::Int(IntKind::Int), "int", l(4, 4)),
            ty(TypeKind::TypeParam, "T", None),
            foo,
            ty(TypeKind::TemplateInstantiation(2, vec![0]), "foo<int>", l(4, 4)),
            ty(TypeKind::Float(FloatKind::Float), "float", l(4, 4)),
            ty(TypeKind::TemplateInstantiation(2, vec![4]), "foo<float>", l(4, 4)),
        ],
    }
}

fn caps(default: bool, hash: bool, eq: bool) -> DeriveCaps {
    DeriveCaps { debug: true, default, copy: true, hash, partialeq: true, eq }
}

fn opts() -> CompOptions {
    CompOptions { derive_debug: true, impl_debug: false, derive_copy: true, derive_default: true, layout_tests: true, const_fn: false, namespaces: false }
}

fn comp(name: &str, layout: Option<Layout>, fields: Vec<FieldDecl>, derives: DeriveCaps) -> CompDecl {
    CompDecl {
        name: name.to_string(),
        is_union: false,
        packed: false,
        layout,
        is_opaque: false,
        needs_explicit_vtable: false,
        bases: Vec::<BaseDecl>::new(),
        fields,
        method_names: vec![],
        template_params: vec![],
        has_non_type_template_params: false,
        is_forward_declaration: false,
        is_unsized: false,
        can_be_rust_union: false,
        comment: None,
        derives,
        private_fields: false,
        accessor_kind: FieldAccessorKind::NoAccessor,
    }
}

fn data(name: &str, ty: usize, offset_bits: u64) -> FieldDecl {
    FieldDecl::Data(DataField { name: Some(name.to_string()), ty, offset_bits: Some(offset_bits), private: None, accessor: None })
}

fn emit(ctx: &TypeCtx, c: &CompDecl) -> Vec<String> {
    let mut r = CodegenResult::new(0);
    codegen_comp(ctx, &opts(), &mut r, c);
    r.items.iter().map(|t| t.as_str().to_string()).collect()
}

fn size_line(name: &str, size: u64) -> String {
    format!(
        "assert_eq!(::std::mem::size_of::<{}>(), {}usize, concat!(\"Size of: \", stringify!({})));\n",
        name, size, name
    )
}

fn align_line(name: &str, align: u64) -> String {
    format!(
        "assert_eq!(::std::mem::align_of::<{}>(), {}usize, concat!(\"Alignment of \", stringify!({})));\n",
        name, align, name
    )
}

fn offset_line(name: &str, field: &str, offset: u64) -> String {
    format!(
        "assert_eq!(unsafe {{ &(*(0 as *const {})).{} as *const _ as usize }}, {}usize, concat!(\"Alignment of field: \", stringify!({}), \"::\", stringify!({})));\n",
        name, field, offset, name, field
    )
}

#[test]
fn bindgen_test_layout_IntStr() {
    let mut ctx = template_ctx();
    ctx.types.push(ty(TypeKind::Comp(false), "IntStr", l(4, 4)));
    let c = comp("IntStr", l(4, 4), vec![data("a", 3, 0)], caps(false, true, true));
    let items = emit(&ctx, &c);
    assert_eq!(items.len(), 4);
    assert_eq!(
        items[0],
        "#[repr(C)]\n#[derive(Debug, Copy, Hash, PartialEq, Eq)]\npub struct IntStr {\npub a: foo<::std::os::raw::c_int>,\n}"
    );
    let expected = format!(
        "#[test]\nfn bindgen_test_layout_IntStr() {{\n{}{}{}}}",
        size_line("IntStr", 4),
        align_line("IntStr", 4),
        offset_line("IntStr", "a", 0)
    );
    assert_eq!(items[1], expected);
    assert_eq!(items[2], "impl Clone for IntStr {\nfn clone(&self) -> Self {\n*self\n}\n}");
    assert_eq!(items[3], "impl Default for IntStr {\nfn default() -> Self {\nunsafe { ::std::mem::zeroed() }\n}\n}");
}

#[test]
fn bindgen_test_layout_FloatStr() {
    let mut ctx = template_ctx();
    ctx.types.push(ty(TypeKind::Comp(false), "FloatStr", l(4, 4)));
    let c = comp("FloatStr", l(4, 4), vec![data("a", 5, 0)], caps(false, false, false));
    let items = emit(&ctx, &c);
    assert_eq!(items[0], "#[repr(C)]\n#[derive(Debug, Copy, PartialEq)]\npub struct FloatStr {\npub a: foo<f32>,\n}");
    let expected = format!(
        "#[test]\nfn bindgen_test_layout_FloatStr() {{\n{}{}{}}}",
        size_line("FloatStr", 4),
        align_line("FloatStr", 4),
        offset_line("FloatStr", "a", 0)
    );
    assert_eq!(items[1], expected);
}

fn instantiation_test(id: usize, name: &str) -> String {
    let ctx = template_ctx();
    let mut r = CodegenResult::new(0);
    codegen_instantiation(&ctx, true, &mut r, id, &name.to_string(), false);
    assert_eq!(r.items.len(), 1);
    r.items[0].as_str().to_string()
}

fn instantiation_expected(fn_name: &str, ty: &str) -> String {
    format!(
        "#[test]\nfn {}() {{\nassert_eq!(::std::mem::size_of::<{}>(), 4usize, concat!(\"Size of template specialization: \", stringify!({})));\nassert_eq!(::std::mem::align_of::<{}>(), 4usize, concat!(\"Alignment of template specialization: \", stringify!({})));\n}}",
        fn_name, ty, ty, ty, ty
    )
}

#[test]
fn __bindgen_test_layout_foo_open0_int_close0_instantiation() {
    let text = instantiation_test(3, "foo_open0_int_close0");
    assert_eq!(
        text,
        instantiation_expected(
            "__bindgen_test_layout_foo_open0_int_close0_instantiation",
            "foo<::std::os::raw::c_int>"
        )
    );
}

#[test]
fn __bindgen_test_layout_foo_open0_float_close0_instantiation() {
    let text = instantiation_test(5, "foo_open0_float_close0");
    assert_eq!(
        text,
        instantiation_expected("__bindgen_test_layout_foo_open0_float_close0_instantiation", "foo<f32>")
    );
}

#[test]
fn bindgen_test_layout_C() {
    let ctx = TypeCtx { namespaces: false, types: vec![ty(TypeKind::Int(IntKind::Bool), "bool", l(1, 1))] };
    let unit = BitfieldUnit {
        nth: 1,
        layout: Layout { size: 1, align: 1 },
        bitfields: vec![
            Bitfield { name: "a".to_string(), offset: 0, width: 1, ty_layout: Layout { size: 1, align: 1 }, ty: "bool".to_string(), signed: false },
            Bitfield { name: "b".to_string(), offset: 1, width: 7, ty_layout: Layout { size: 1, align: 1 }, ty: "bool".to_string(), signed: false },
        ],
    };
    let mut c = comp("C", l(1, 1), vec![FieldDecl::Bitfields(unit)], caps(true, false, false));
    c.derives.partialeq = false;
    let items = emit(&ctx, &c);
    assert_eq!(
        items[0],
        "#[repr(C)]\n#[derive(Debug, Default, Copy)]\npub struct C {\npub _bitfield_1: u8,\npub __bindgen_align: [u8; 0usize],\n}"
    );
    let expected = format!("#[test]\nfn bindgen_test_layout_C() {{\n{}{}}}", size_line("C", 1), align_line("C", 1));
    assert_eq!(items[1], expected);
    assert_eq!(items[2], "impl Clone for C {\nfn clone(&self) -> Self {\n*self\n}\n}");
    let methods = &items[3];
    assert!(methods.starts_with("impl C {\n#[inline]\npub fn a(&self) -> bool {"));
    assert!(methods.contains("pub fn set_a(&mut self, val: bool)"));
    assert!(methods.contains("pub fn b(&self) -> bool"));
    assert!(methods.contains("pub fn set_b(&mut self, val: bool)"));
    assert!(methods.contains("let mask = 1u64 as u8;"));
    assert!(methods.contains("let mask = 254u64 as u8;"));
    assert!(methods.contains(
        "pub fn new_bitfield_1(a: bool, b: bool) -> u8 {\n((0 | ((a as u8 as u8) << 0usize) & (1u64 as u8)) | ((b as u8 as u8) << 1usize) & (254u64 as u8))\n}"
    ));
}

fn opaque_ctx() -> TypeCtx {
    let mut opaque = ty(TypeKind::Comp(false), "opaque", l(4, 4));
    opaque.is_opaque = true;
    TypeCtx { namespaces: false, types: vec![opaque, ty(TypeKind::Comp(false), "container", l(4, 4))] }
}

#[test]
fn bindgen_test_layout_opaque() {
    let ctx = opaque_ctx();
    let mut c = comp("opaque", l(4, 4), vec![data("x", 0, 0)], caps(true, true, true));
    c.is_opaque = true;
    let items = emit(&ctx, &c);
    assert_eq!(
        items[0],
        "#[repr(C)]\n#[derive(Debug, Default, Copy, Hash, PartialEq, Eq)]\npub struct opaque {\npub _bindgen_opaque_blob: u32,\n}"
    );
    let expected = format!(
        "#[test]\nfn bindgen_test_layout_opaque() {{\n{}{}}}",
        size_line("opaque", 4),
        align_line("opaque", 4)
    );
    assert_eq!(items[1], expected);
    assert_eq!(items.len(), 3);
}

#[test]
fn bindgen_test_layout_container() {
    let ctx = opaque_ctx();
    let c = comp("container", l(4, 4), vec![data("contained", 0, 0)], caps(true, true, true));
    let items = emit(&ctx, &c);
    assert_eq!(
        items[0],
        "#[repr(C)]\n#[derive(Debug, Default, Copy, Hash, PartialEq, Eq)]\npub struct container {\npub contained: opaque,\n}"
    );
    let expected = format!(
        "#[test]\nfn bindgen_test_layout_container() {{\n{}{}{}}}",
        size_line("container", 4),
        align_line("container", 4),
        offset_line("container", "contained", 0)
    );
    assert_eq!(items[1], expected);
}
