use bindgen_codegen::enums::{codegen_enum, EnumDecl, EnumVariant, EnumVariation, VariantValue};
use bindgen_codegen::function::{fnsig_arguments, fnsig_return_ty};
use bindgen_codegen::ir::{Abi, FloatKind, FunctionSig, IntKind, TypeCtx, TypeItem, TypeKind};
use bindgen_codegen::layout::{blob, Layout};
use bindgen_codegen::method::{codegen_method, MethodDecl, MethodKind};
use bindgen_codegen::function::FunctionDecl;
use bindgen_codegen::objc::{codegen_objc_interface, ObjCInterface, ObjCMethod};
use bindgen_codegen::result::{CodegenResult, NameCounts};
use bindgen_codegen::text::decimal;
use bindgen_codegen::typedecl::{codegen_alias, codegen_instantiation};
use bindgen_codegen::types::{build_templated_path, to_rust_ty_or_opaque, try_to_rust_ty, type_from_named, TyError};
use bindgen_codegen::var::{codegen_var, VarDecl, VarValue};

fn ty(kind: TypeKind, name: &str, layout: Option<Layout>) -> TypeItem {
    TypeItem {
        kind,
        name: name.to_string(),
        path: vec![name.to_string()],
        is_const: false,
        is_opaque: false,
        layout,
        params: vec![],
        param_used: vec![],
    }
}

fn l(size: u64, align: u64) -> Option<Layout> {
    Some(Layout { size, align })
}

/// 0 int, 1 const char, 2 char*, 3 int[4], 4 fn(int, name: char*) -> int,
/// 5 pointer to fn, 6 uint32_t, 7 opaque without layout, 8 enum, 9 alias of
/// enum, 10 __int128, 11 void, 12 T, 13 opaque template, 14 its instance.
fn ctx() -> TypeCtx {
    let mut cchar = ty(TypeKind::Int(IntKind::Char), "char", l(1, 1));
    cchar.is_const = true;
    let mut path = ty(TypeKind::Enum, "color", l(4, 4));
    path.path = vec!["root".to_string(), "ns".to_string(), "color".to_string()];
    let mut tmpl = ty(TypeKind::Comp(false), "tmpl", l(8, 8));
    tmpl.is_opaque = true;
    tmpl.params = vec![12];
    tmpl.param_used = vec![true];
    TypeCtx {
        namespaces: false,
        types: vec![
            ty(TypeKind::Int(IntKind::Int), "int", l(4, 4)),
            cchar,
            ty(TypeKind::Pointer(1), "char*", l(8, 8)),
            ty(TypeKind::Array(0, 4), "int[4]", l(16, 4)),
            ty(
                TypeKind::Function(FunctionSig {
                    ret: 0,
                    args: vec![(None, 0), (Some("name".to_string()), 2), (None, 3)],
                    abi: Abi::C,
                    variadic: true,
                }),
                "fn",
                None,
            ),
            ty(TypeKind::Pointer(4), "fn*", l(8, 8)),
            ty(TypeKind::Alias(0), "uint32_t", l(4, 4)),
            ty(TypeKind::Opaque, "blob", None),
            path,
            ty(TypeKind::Alias(8), "colour", l(4, 4)),
            ty(TypeKind::Int(IntKind::I128), "__int128", l(16, 16)),
            ty(TypeKind::Void, "void", None),
            ty(TypeKind::TypeParam, "T", None),
            tmpl,
            ty(TypeKind::TemplateInstantiation(13, vec![0]), "tmpl<int>", l(8, 8)),
        ],
    }
}

#[test]
fn renders_primitives_and_pointers() {
    let c = ctx();
    assert_eq!(try_to_rust_ty(&c, 0), Ok("::std::os::raw::c_int".to_string()));
    assert_eq!(try_to_rust_ty(&c, 2), Ok("*const ::std::os::raw::c_char".to_string()));
    assert_eq!(try_to_rust_ty(&c, 3), Ok("[::std::os::raw::c_int; 4usize]".to_string()));
    assert_eq!(try_to_rust_ty(&c, 6), Ok("u32".to_string()));
    assert_eq!(try_to_rust_ty(&c, 8), Ok("root::ns::color".to_string()));
    assert_eq!(try_to_rust_ty(&c, 10), Ok("[u64; 2]".to_string()));
    assert_eq!(try_to_rust_ty(&c, 12), Ok("T".to_string()));
}

#[test]
fn renders_function_pointers() {
    let c = ctx();
    let f = "::std::option::Option<unsafe extern \"C\" fn(arg1: ::std::os::raw::c_int, name: *const ::std::os::raw::c_char, arg2: *mut ::std::os::raw::c_int, ...) -> ::std::os::raw::c_int>";
    assert_eq!(try_to_rust_ty(&c, 4), Ok(f.to_string()));
    assert_eq!(try_to_rust_ty(&c, 5), Ok(f.to_string()));
    assert_eq!(
        fnsig_arguments(&c, 4),
        vec![
            "arg1: ::std::os::raw::c_int".to_string(),
            "name: *const ::std::os::raw::c_char".to_string(),
            "arg2: *mut ::std::os::raw::c_int".to_string(),
        ]
    );
    assert_eq!(fnsig_return_ty(&c, 4), " -> ::std::os::raw::c_int".to_string());
}

#[test]
fn opaque_fallbacks() {
    let c = ctx();
    assert_eq!(try_to_rust_ty(&c, 7), Err(TyError::NoLayoutForOpaqueBlob));
    assert_eq!(to_rust_ty_or_opaque(&c, 7), "u8".to_string());
    assert_eq!(try_to_rust_ty(&c, 13), Ok("u64".to_string()));
    assert_eq!(try_to_rust_ty(&c, 14), Err(TyError::InstantiationOfOpaqueType));
    assert_eq!(to_rust_ty_or_opaque(&c, 14), "u64".to_string());
    let mut unknown = ctx();
    unknown.types[4].kind = TypeKind::Function(FunctionSig { ret: 11, args: vec![], abi: Abi::Unknown(3), variadic: false });
    assert_eq!(try_to_rust_ty(&unknown, 4), Err(TyError::UnknownAbi(3)));
    let mut no_params = ctx();
    no_params.types[13].is_opaque = false;
    no_params.types[13].params = vec![];
    no_params.types[13].param_used = vec![];
    assert_eq!(try_to_rust_ty(&no_params, 14), Err(TyError::InstantiationOfOpaqueType));
}

#[test]
fn blobs_follow_alignment() {
    assert_eq!(blob(Layout { size: 4, align: 4 }), "u32");
    assert_eq!(blob(Layout { size: 16, align: 8 }), "[u64; 2usize]");
    assert_eq!(blob(Layout { size: 6, align: 2 }), "[u16; 3usize]");
    assert_eq!(blob(Layout { size: 5, align: 3 }), "[u8; 5usize]");
    assert_eq!(blob(Layout { size: 0, align: 1 }), "[u8; 0usize]");
}

#[test]
fn decimal_spelling() {
    assert_eq!(decimal(0), "0");
    assert_eq!(decimal(7), "7");
    assert_eq!(decimal(1234567890), "1234567890");
    assert_eq!(decimal(u64::MAX), "18446744073709551615");
}

#[test]
fn well_known_typedefs() {
    assert_eq!(type_from_named(&"size_t".to_string()), Some("usize".to_string()));
    assert_eq!(type_from_named(&"ssize_t".to_string()), Some("isize".to_string()));
    assert_eq!(type_from_named(&"int8_t".to_string()), Some("i8".to_string()));
    assert_eq!(type_from_named(&"my_t".to_string()), None);
}

#[test]
fn templated_paths() {
    let c = ctx();
    assert_eq!(build_templated_path(&c, 8, &vec![]), Ok("root::ns::color".to_string()));
    assert_eq!(build_templated_path(&c, 8, &vec![0, 12]), Ok("root::ns::color<::std::os::raw::c_int, T>".to_string()));
    assert_eq!(build_templated_path(&c, 8, &vec![7]), Err(TyError::NoLayoutForOpaqueBlob));
}

#[test]
fn typedefs() {
    let c = ctx();
    let mut r = CodegenResult::new(0);
    codegen_alias(&c, false, 0, &None, &mut r, 6);
    assert_eq!(r.items.len(), 0);
    codegen_alias(&c, true, 2, &Some("a colour".to_string()), &mut r, 9);
    assert_eq!(r.items[0].as_str(), "/// a colour\npub use self::super::super::root::ns::color as colour;");
    let mut c2 = ctx();
    c2.types[9].kind = TypeKind::Alias(3);
    codegen_alias(&c2, false, 0, &None, &mut r, 9);
    assert_eq!(r.items[1].as_str(), "pub type colour = [::std::os::raw::c_int; 4usize];");
}

#[test]
fn instantiation_tests_are_numbered() {
    let mut c = ctx();
    c.types[13].is_opaque = false;
    let mut r = CodegenResult::new(0);
    let name = "tmpl_open0_int_close0".to_string();
    codegen_instantiation(&c, true, &mut r, 14, &name, false);
    codegen_instantiation(&c, true, &mut r, 14, &name, false);
    codegen_instantiation(&c, true, &mut r, 14, &name, true);
    codegen_instantiation(&c, false, &mut r, 14, &name, false);
    assert_eq!(r.items.len(), 2);
    assert!(r.items[0].as_str().starts_with("#[test]\nfn __bindgen_test_layout_tmpl_open0_int_close0_instantiation() {\n"));
    assert!(r.items[1].as_str().starts_with("#[test]\nfn __bindgen_test_layout_tmpl_open0_int_close0_instantiation_1() {\n"));
    assert!(r.items[1].as_str().contains("::std::mem::size_of::<tmpl<::std::os::raw::c_int>>(), 8usize"));
}

fn enum_decl(variants: Vec<EnumVariant>, named: bool) -> EnumDecl {
    EnumDecl {
        name: "flags".to_string(),
        rust_ty: "flags".to_string(),
        named,
        parent_name: Some("S".to_string()),
        comment: None,
        repr_signed: true,
        repr_size: 1,
        variants,
    }
}

fn variant(name: &str, v: i64, force: bool) -> EnumVariant {
    EnumVariant { name: name.to_string(), value: VariantValue::Signed(v), hidden: false, force_constification: force }
}

#[test]
fn enum_styles() {
    let e = enum_decl(vec![variant("A", 1, false), variant("B", -2, false)], true);
    assert_eq!(
        codegen_enum(&e, EnumVariation::Consts, true),
        vec![
            "pub const flags_A: flags = 1;".to_string(),
            "pub const flags_B: flags = -2;".to_string(),
            "pub type flags = i8;".to_string(),
        ]
    );
    assert_eq!(
        codegen_enum(&e, EnumVariation::ModuleConsts, true),
        vec!["pub mod flags {\npub type Type = i8;\npub const A: Type = 1;\npub const B: Type = -2;\n}".to_string()]
    );
    let bits = codegen_enum(&e, EnumVariation::Bitfield, false);
    assert_eq!(bits.len(), 7);
    assert_eq!(bits[0], "pub const A: flags = flags(1);");
    assert!(bits[2].starts_with("impl ::std::ops::BitOr<flags> for flags {"));
    assert_eq!(bits[6], "#[repr(C)]\n#[derive(Debug, Copy, Clone, PartialEq, Eq, Hash)]\npub struct flags(pub i8);");
}

#[test]
fn unnamed_and_forced_constants() {
    let e = enum_decl(vec![variant("X", 0, true), variant("Y", 1, false), variant("Z", 1, false)], false);
    let items = codegen_enum(&e, EnumVariation::Rust, true);
    assert_eq!(
        items,
        vec![
            "pub const S_Y: flags = flags::Y;".to_string(),
            "pub const S_Z: flags = flags::Y;".to_string(),
            "pub const S_X: flags = flags::X;".to_string(),
            "#[repr(i8)]\n#[derive(Debug, Copy, Clone, PartialEq, Eq, Hash)]\npub enum flags {\nY = 1,\nX = 0,\n}".to_string(),
        ]
    );
}

#[test]
fn variables() {
    let c = ctx();
    let mut r = CodegenResult::new(0);
    let v = |name: &str, ty: usize, value: Option<VarValue>| VarDecl {
        name: name.to_string(),
        canonical_name: name.to_string(),
        mangled_name: None,
        has_template_params: false,
        ty,
        value,
    };
    codegen_var(&c, &mut r, &v("N", 0, Some(VarValue::Int(-3))));
    codegen_var(&c, &mut r, &v("S", 2, Some(VarValue::Bytes(b"a\"b\n".to_vec()))));
    codegen_var(&c, &mut r, &v("B", 2, Some(VarValue::Bytes(vec![0xff, 1]))));
    codegen_var(&c, &mut r, &v("T", 0, Some(VarValue::Bool(true))));
    codegen_var(&c, &mut r, &v("C", 0, Some(VarValue::Char(97))));
    let mut m = v("g", 0, None);
    m.mangled_name = Some("_ZN2ns1gE".to_string());
    codegen_var(&c, &mut r, &m);
    let mut t = v("h", 0, None);
    t.has_template_params = true;
    codegen_var(&c, &mut r, &t);
    let items: Vec<&str> = r.items.iter().map(|t| t.as_str()).collect();
    assert_eq!(
        items,
        vec![
            "pub const N: ::std::os::raw::c_int = -3;",
            "pub const S: &'static [u8; 5usize] = b\"a\\\"b\\n\\0\";",
            "pub const B: [u8; 3usize] = [255u8, 1u8, 0u8];",
            "pub const T: ::std::os::raw::c_int = true;",
            "pub const C: ::std::os::raw::c_int = 97u8;",
            "extern \"C\" {\n#[link_name = \"_ZN2ns1gE\"]\npub static mut g: ::std::os::raw::c_int;\n}",
        ]
    );
}

fn method_ctx() -> TypeCtx {
    let mut c = ctx();
    c.types.push(ty(TypeKind::Pointer(11), "this", l(8, 8)));
    c.types.push(ty(
        TypeKind::Function(FunctionSig { ret: 0, args: vec![(Some("this".to_string()), 15), (Some("x".to_string()), 0)], abi: Abi::C, variadic: false }),
        "m",
        None,
    ));
    c
}

fn method(kind: MethodKind, name: &str, canonical: &str, is_const: bool) -> MethodDecl {
    MethodDecl {
        kind,
        is_const,
        function: FunctionDecl {
            name: name.to_string(),
            canonical_name: canonical.to_string(),
            mangled_name: None,
            comment: None,
            has_template_params: false,
            signature: 16,
        },
    }
}

#[test]
fn method_wrappers() {
    let c = method_ctx();
    let mut r = CodegenResult::new(0);
    let mut names = NameCounts::new();
    let mut ms: Vec<String> = Vec::new();
    assert_eq!(codegen_method(&c, &mut r, &mut names, &mut ms, &method(MethodKind::Normal, "get", "S_get", true)), Ok(()));
    assert_eq!(codegen_method(&c, &mut r, &mut names, &mut ms, &method(MethodKind::Normal, "get", "S_get1", false)), Ok(()));
    assert_eq!(codegen_method(&c, &mut r, &mut names, &mut ms, &method(MethodKind::Constructor, "S", "S_S", false)), Ok(()));
    assert_eq!(codegen_method(&c, &mut r, &mut names, &mut ms, &method(MethodKind::Virtual, "v", "S_v", false)), Ok(()));
    assert_eq!(
        ms,
        vec![
            "#[inline]\npub unsafe fn get(&self, x: ::std::os::raw::c_int) -> ::std::os::raw::c_int {\nS_get(self, x)\n}".to_string(),
            "#[inline]\npub unsafe fn get1(&mut self, x: ::std::os::raw::c_int) -> ::std::os::raw::c_int {\nS_get1(self, x)\n}".to_string(),
            "#[inline]\npub unsafe fn new(x: ::std::os::raw::c_int) -> Self {\nlet mut __bindgen_tmp = ::std::mem::uninitialized(); S_S(&mut __bindgen_tmp, x); __bindgen_tmp\n}".to_string(),
        ]
    );
    assert_eq!(r.items.len(), 3);
    assert!(r.items[0].as_str().starts_with("extern \"C\" {\n#[link_name = \"get\"]\npub fn S_get(this: *mut ::std::os::raw::c_void, x: ::std::os::raw::c_int)"));
}

#[test]
fn objc_interface() {
    let mut c = ctx();
    c.types.push(ty(
        TypeKind::Function(FunctionSig { ret: 11, args: vec![(Some("x".to_string()), 0), (Some("y".to_string()), 0)], abi: Abi::C, variadic: false }),
        "sel",
        None,
    ));
    c.types.push(ty(TypeKind::Function(FunctionSig { ret: 0, args: vec![], abi: Abi::C, variadic: false }), "count", None));
    let m = |sel: Vec<&str>, name: &str, class: bool, sig: usize| ObjCMethod {
        selector: sel.into_iter().map(|s| s.to_string()).collect(),
        rust_name: name.to_string(),
        is_class_method: class,
        signature: sig,
    };
    let iface = ObjCInterface {
        name: "Foo".to_string(),
        methods: vec![m(vec!["setX", "y"], "setX", false, 15), m(vec!["count"], "count", false, 16)],
        class_methods: vec![m(vec!["count"], "count", true, 16)],
    };
    let mut r = CodegenResult::new(0);
    codegen_objc_interface(&c, &mut r, &iface);
    assert!(r.saw_objc);
    assert_eq!(
        r.items[0].as_str(),
        "pub trait Foo {\nunsafe fn setX(self, x: ::std::os::raw::c_int, y: ::std::os::raw::c_int);\nunsafe fn count(self) -> ::std::os::raw::c_int;\nunsafe fn class_count() -> ::std::os::raw::c_int;\n}"
    );
    assert_eq!(
        r.items[1].as_str(),
        "impl Foo for id {\nunsafe fn setX(self, x: ::std::os::raw::c_int, y: ::std::os::raw::c_int) {\nmsg_send!(self, setX: x y: y)\n}\nunsafe fn count(self) -> ::std::os::raw::c_int {\nmsg_send!(self, count)\n}\nunsafe fn class_count() -> ::std::os::raw::c_int {\nmsg_send!(objc::runtime::Class::get(\"Foo\").expect(\"Couldn't find Foo\"), count)\n}\n}"
    );
}

#[test]
fn complex_numbers() {
    let mut c = TypeCtx { namespaces: false, types: vec![ty(TypeKind::Complex(FloatKind::Double), "complex", l(16, 8))] };
    assert_eq!(try_to_rust_ty(&c, 0), Ok("__BindgenComplex<f64>".to_string()));
    c.namespaces = true;
    assert_eq!(try_to_rust_ty(&c, 0), Ok("root::__BindgenComplex<f64>".to_string()));
}
