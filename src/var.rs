use vstd::prelude::*;
use vstd::utf8::valid_utf8;
use crate::bitfield::views;
use crate::enums::{value_expr, value_text, VariantValue};
use crate::ir::TypeCtx;
use crate::result::CodegenResult;
use crate::tokens::{tokens_of, tokens_text};
use crate::text::{dec, push_decimal};
use crate::types::{join, join_strings, render_or_opaque, to_rust_ty_or_opaque};
use crate::function::link_name_text;

verus! {

/// The compile-time value of a variable.
#[derive(Debug)]
pub enum VarValue {
    Bool(bool),
    Int(i64),
    Char(u8),
    /// A string's bytes, without the terminating zero.
    Bytes(Vec<u8>),
}

/// A variable declaration.
#[derive(Debug)]
pub struct VarDecl {
    /// The name in the C source.
    pub name: String,
    pub canonical_name: String,
    pub mangled_name: Option<String>,
    /// Whether the variable is a static member of a template.
    pub has_template_params: bool,
    pub ty: usize,
    pub value: Option<VarValue>,
}

/// Relies on `std::str::from_utf8`: it succeeds exactly on valid UTF-8.
#[verifier::external_body]
fn is_utf8(b: &[u8]) -> (r: bool)
    ensures
        r == valid_utf8(b@),
{
    std::str::from_utf8(b).is_ok()
}

/// Relies on `String::push`: the character goes at the end.
#[verifier::external_body]
fn push_char(s: &mut String, c: char)
    ensures
        final(s)@ == old(s)@.push(c),
{
    s.push(c)
}

pub open spec fn hex_digit(d: nat) -> Seq<char> {
    if d < 10 { dec(d) }
    else if d == 10 { "a"@ }
    else if d == 11 { "b"@ }
    else if d == 12 { "c"@ }
    else if d == 13 { "d"@ }
    else if d == 14 { "e"@ }
    else { "f"@ }
}

/// A byte as it is written inside a byte-string literal.
pub open spec fn escape_byte(b: u8) -> Seq<char> {
    if b == 9 { "\\t"@ }
    else if b == 10 { "\\n"@ }
    else if b == 13 { "\\r"@ }
    else if b == 34 { "\\\""@ }
    else if b == 39 { "\\'"@ }
    else if b == 92 { "\\\\"@ }
    else if 32 <= b < 127 { seq![b as char] }
    else { "\\x"@ + hex_digit((b / 16) as nat) + hex_digit((b % 16) as nat) }
}

fn hex(d: u8) -> (r: String)
    requires
        d < 16,
    ensures
        r@ == hex_digit(d as nat),
{
    if d < 10 { crate::text::decimal(d as u64) }
    else if d == 10 { String::from_str("a") }
    else if d == 11 { String::from_str("b") }
    else if d == 12 { String::from_str("c") }
    else if d == 13 { String::from_str("d") }
    else if d == 14 { String::from_str("e") }
    else { String::from_str("f") }
}

fn escape(b: u8) -> (r: String)
    ensures
        r@ == escape_byte(b),
{
    if b == 9 { String::from_str("\\t") }
    else if b == 10 { String::from_str("\\n") }
    else if b == 13 { String::from_str("\\r") }
    else if b == 34 { String::from_str("\\\"") }
    else if b == 39 { String::from_str("\\'") }
    else if b == 92 { String::from_str("\\\\") }
    else if 32 <= b && b < 127 {
        let mut s = String::new();
        push_char(&mut s, b as char);
        s
    } else {
        let mut s = String::from_str("\\x");
        let h = hex(b / 16);
        s.append(h.as_str());
        let l = hex(b % 16);
        s.append(l.as_str());
        s
    }
}


/// The bytes of a string, escaped for a byte-string literal.
pub open spec fn escaped(bs: Seq<u8>) -> Seq<char>
    decreases bs.len(),
{
    if bs.len() == 0 { Seq::empty() } else { escaped(bs.drop_last()) + escape_byte(bs.last()) }
}

/// The elements of a byte array literal: each byte, then the terminating
/// zero.
pub open spec fn byte_items(bs: Seq<u8>) -> Seq<Seq<char>> {
    bs.map_values(|b: u8| dec(b as nat) + "u8"@).push("0u8"@)
}

/// The constant of a variable with a value: a string becomes a reference to
/// a byte-string literal with its terminating zero, or an array of its bytes
/// when they are not UTF-8.
pub open spec fn const_text(name: Seq<char>, ty: Seq<char>, v: VarValue) -> Seq<char> {
    match v {
        VarValue::Bool(b) => "pub const "@ + name + ": "@ + ty + " = "@ + (if b { "true"@ } else { "false"@ }) + ";"@,
        VarValue::Int(x) => "pub const "@ + name + ": "@ + ty + " = "@ + value_text(VariantValue::Signed(x)) + ";"@,
        VarValue::Char(c) => "pub const "@ + name + ": "@ + ty + " = "@ + dec(c as nat) + "u8;"@,
        VarValue::Bytes(bs) => {
            let len = dec((bs.len() + 1) as nat);
            if valid_utf8(bs@) {
                "pub const "@ + name + ": &'static [u8; "@ + len + "usize] = b\""@ + escaped(bs@) + "\\0\";"@
            } else {
                "pub const "@ + name + ": [u8; "@ + len + "usize] = ["@ + join(byte_items(bs@), ", "@) + "];"@
            }
        },
    }
}

/// The link attribute of an extern static: the mangled symbol, or the C
/// name when the canonical name differs from it.
pub open spec fn var_attrs(v: VarDecl) -> Seq<Seq<char>> {
    match v.mangled_name {
        Some(m) => seq![link_name_text(m@)],
        None => if v.canonical_name@ != v.name@ { seq![link_name_text(v.name@)] } else { Seq::empty() },
    }
}

/// What a variable emits: a constant when it has a value, else an extern
/// static.
pub open spec fn var_text(ctx: TypeCtx, v: VarDecl) -> Seq<char> {
    let ty = render_or_opaque(ctx, v.ty as int);
    match v.value {
        Some(val) => const_text(v.canonical_name@, ty, val),
        None => {
            let attrs = var_attrs(v);
            "extern \"C\" {\n"@ + (if attrs.len() > 0 { join(attrs, "\n"@) + "\n"@ } else { Seq::empty() })
                + "pub static mut "@ + v.canonical_name@ + ": "@ + ty + ";\n}"@
        },
    }
}

fn constant(name: &String, ty: &String, v: &VarValue) -> (r: String)
    requires
        v is Bytes ==> v->Bytes_0.len() < u64::MAX,
    ensures
        r@ == const_text(name@, ty@, *v),
{
    let mut s = String::from_str("pub const ");
    s.append(name.as_str());
    match v {
        VarValue::Bool(b) => {
            s.append(": ");
            s.append(ty.as_str());
            s.append(" = ");
            s.append(if *b { "true" } else { "false" });
            s.append(";");
        },
        VarValue::Int(x) => {
            s.append(": ");
            s.append(ty.as_str());
            s.append(" = ");
            let e = value_expr(VariantValue::Signed(*x));
            s.append(e.as_str());
            s.append(";");
        },
        VarValue::Char(c) => {
            s.append(": ");
            s.append(ty.as_str());
            s.append(" = ");
            push_decimal(&mut s, *c as u64);
            s.append("u8;");
        },
        VarValue::Bytes(bs) => {
            let len = bs.len() as u64 + 1;
            if is_utf8(bs.as_slice()) {
                s.append(": &'static [u8; ");
                push_decimal(&mut s, len);
                s.append("usize] = b\"");
                let mut i: usize = 0;
                let ghost start = s@;
                while i < bs.len()
                    invariant
                        i <= bs.len(),
                        s@ == start + escaped(bs@.subrange(0, i as int)),
                    decreases bs.len() - i,
                {
                    let e = escape(bs[i]);
                    s.append(e.as_str());
                    proof {
                        assert(bs@.subrange(0, i + 1).drop_last() =~= bs@.subrange(0, i as int));
                    }
                    i = i + 1;
                }
                proof {
                    assert(bs@.subrange(0, i as int) =~= bs@);
                }
                s.append("\\0\";");
            } else {
                s.append(": [u8; ");
                push_decimal(&mut s, len);
                s.append("usize] = [");
                let mut items: Vec<String> = Vec::new();
                let mut i: usize = 0;
                while i < bs.len()
                    invariant
                        i <= bs.len(),
                        views(items@) == bs@.subrange(0, i as int).map_values(|b: u8| dec(b as nat) + "u8"@),
                    decreases bs.len() - i,
                {
                    let mut e = crate::text::decimal(bs[i] as u64);
                    e.append("u8");
                    let ghost prev = items@;
                    items.push(e);
                    proof {
                        assert(views(items@) =~= views(prev).push(e@));
                        assert(bs@.subrange(0, i + 1).map_values(|b: u8| dec(b as nat) + "u8"@)
                            =~= bs@.subrange(0, i as int).map_values(|b: u8| dec(b as nat) + "u8"@).push(e@));
                    }
                    i = i + 1;
                }
                let ghost prev = items@;
                items.push(String::from_str("0u8"));
                proof {
                    assert(bs@.subrange(0, i as int) =~= bs@);
                    assert(views(items@) =~= views(prev).push("0u8"@));
                }
                let j = join_strings(&items, ", ");
                s.append(j.as_str());
                s.append("];");
            }
        },
    }
    s
}

/// Emits a variable. A name already emitted emits nothing; otherwise the
/// name is recorded, and unless the variable belongs to a template it is
/// emitted as a constant or an extern static.
pub fn codegen_var(ctx: &TypeCtx, result: &mut CodegenResult, v: &VarDecl)
    requires
        ctx.wf(),
        v.ty < ctx.len(),
        v.value matches Some(VarValue::Bytes(bs)) ==> bs.len() < u64::MAX,
    ensures
        old(result).seen_variable(v.canonical_name@) ==> *final(result) == *old(result),
        !old(result).seen_variable(v.canonical_name@) ==> {
            &&& final(result).seen_variable(v.canonical_name@)
            &&& final(result).items_text() == if v.has_template_params {
                    old(result).items_text()
                } else {
                    old(result).items_text().push(var_text(*ctx, *v))
                }
            &&& final(result).functions_seen == old(result).functions_seen
            &&& final(result).overload_counters == old(result).overload_counters
            &&& final(result).items_seen == old(result).items_seen
        },
{
    if result.seen_var(&v.canonical_name) {
        return;
    }
    result.saw_var(&v.canonical_name);
    proof {
        assert(result.vars_seen@[result.vars_seen@.len() - 1]@ == v.canonical_name@);
        assert(result.seen_variable(v.canonical_name@));
    }
    let ghost mid = *result;
    if v.has_template_params {
        return;
    }
    let ty = to_rust_ty_or_opaque(ctx, v.ty);
    let text = match &v.value {
        Some(val) => constant(&v.canonical_name, &ty, val),
        None => {
            let mut attrs: Vec<String> = Vec::new();
            match &v.mangled_name {
                Some(m) => attrs.push(crate::function::link_name(m)),
                None => {
                    if v.canonical_name != v.name {
                        attrs.push(crate::function::link_name(&v.name));
                    }
                },
            }
            proof {
                assert(views(attrs@) =~= var_attrs(*v));
            }
            let mut s = String::from_str("extern \"C\" {\n");
            if attrs.len() > 0 {
                let j = join_strings(&attrs, "\n");
                s.append(j.as_str());
                s.append("\n");
            }
            s.append("pub static mut ");
            s.append(v.canonical_name.as_str());
            s.append(": ");
            s.append(ty.as_str());
            s.append(";\n}");
            s
        },
    };
    let t = tokens_of(text.as_str());
    result.push_item(t);
    proof {
        assert(result.vars_seen == mid.vars_seen);
        assert(mid.items == old(result).items);
        assert(text@ == var_text(*ctx, *v));
    }
}

} // verus!
