use vstd::prelude::*;
use crate::layout::{blob, blob_text, Layout};
use crate::text::{dec, push_decimal};

verus! {

/// One bitfield of a unit: its name, its first bit inside the unit, its
/// width in bits, the layout of its declared type and that type's text.
#[derive(Debug)]
pub struct Bitfield {
    pub name: String,
    pub offset: u64,
    pub width: u64,
    pub ty_layout: Layout,
    pub ty: String,
    /// Whether the declared type is a signed integer, whose values the
    /// getter sign-extends from the bitfield's width.
    pub signed: bool,
}

/// A bitfield unit: the storage shared by consecutive bitfields.
#[derive(Debug)]
pub struct BitfieldUnit {
    pub nth: u64,
    pub layout: Layout,
    pub bitfields: Vec<Bitfield>,
}

/// The bits of a field of `width` bits that starts at bit `offset`.
pub open spec fn mask_of(offset: u64, width: u64) -> u64 {
    let low: u64 = if width >= 64 { 0xffff_ffff_ffff_ffffu64 } else { ((1u64 << width) - 1) as u64 };
    (low << offset) as u64
}

/// What a getter reads from the unit's integer.
pub open spec fn get_bits(unit: u64, offset: u64, width: u64) -> u64 {
    (unit & mask_of(offset, width)) >> offset
}

/// What a setter leaves in the unit's integer.
pub open spec fn set_bits(unit: u64, offset: u64, width: u64, v: u64) -> u64 {
    (unit & !mask_of(offset, width)) | ((v << offset) & mask_of(offset, width))
}

/// The values a bitfield of `width` bits can hold.
pub open spec fn fits_width(v: u64, width: u64) -> bool {
    width >= 64 || v < (1u64 << width)
}

/// A bitfield lies inside the 64 bits of the unit.
pub open spec fn in_unit(offset: u64, width: u64) -> bool {
    1 <= width && width <= 64 && offset < 64 && offset + width <= 64
}

/// The mask of a bitfield.
pub fn mask(offset: u64, width: u64) -> (r: u64)
    requires
        in_unit(offset, width),
    ensures
        r == mask_of(offset, width),
{
    let low: u64 = if width >= 64 { 0xffff_ffff_ffff_ffffu64 } else {
        assert(1u64 << width >= 1) by (bit_vector)
            requires
                width < 64,
        ;
        (1u64 << width) - 1
    };
    low << offset
}

/// The value of a bitfield read from the unit's integer.
pub fn get_bitfield(unit: u64, offset: u64, width: u64) -> (r: u64)
    requires
        in_unit(offset, width),
    ensures
        r == get_bits(unit, offset, width),
{
    (unit & mask(offset, width)) >> offset
}

/// The unit's integer after a bitfield is set to `v`.
pub fn set_bitfield(unit: u64, offset: u64, width: u64, v: u64) -> (r: u64)
    requires
        in_unit(offset, width),
    ensures
        r == set_bits(unit, offset, width, v),
{
    let m = mask(offset, width);
    (unit & !m) | ((v << offset) & m)
}

/// Setting a bitfield to a value it can hold, then reading it, gives that
/// value back.
pub proof fn set_then_get(unit: u64, offset: u64, width: u64, v: u64)
    requires
        in_unit(offset, width),
        fits_width(v, width),
    ensures
        get_bits(set_bits(unit, offset, width, v), offset, width) == v,
{
    assert(((((unit & !mask_of(offset, width)) | ((v << offset) & mask_of(offset, width)))
        & mask_of(offset, width)) >> offset) == v) by (bit_vector)
        requires
            1 <= width && width <= 64 && offset < 64 && offset + width <= 64,
            width >= 64 || v < (1u64 << width),
    ;
}


/// The unit's integer that the unit constructor builds from one value per
/// bitfield: each value shifted to its offset, cut to its mask, or-ed in.
pub open spec fn ctor_bits(fields: Seq<Bitfield>, vals: Seq<u64>) -> u64
    decreases fields.len(),
{
    if fields.len() == 0 || vals.len() == 0 {
        0
    } else {
        let f = fields.last();
        ctor_bits(fields.drop_last(), vals.drop_last())
            | ((vals.last() << f.offset) & mask_of(f.offset, f.width))
    }
}

/// Every bitfield lies inside the unit and no two share a bit.
pub open spec fn disjoint_fields(fields: Seq<Bitfield>) -> bool {
    &&& forall|i: int| 0 <= i < fields.len() ==> in_unit(#[trigger] fields[i].offset, fields[i].width)
    &&& forall|i: int, j: int| 0 <= i < fields.len() && 0 <= j < fields.len() && i != j ==>
        mask_of(#[trigger] fields[i].offset, fields[i].width) & mask_of(#[trigger] fields[j].offset, fields[j].width) == 0
}

/// The value of the unit constructor on `vals`, one per bitfield.
pub fn unit_ctor_value(fields: &Vec<Bitfield>, vals: &Vec<u64>) -> (r: u64)
    requires
        fields.len() == vals.len(),
        forall|i: int| 0 <= i < fields.len() ==> in_unit(#[trigger] fields[i].offset, fields[i].width),
    ensures
        r == ctor_bits(fields@, vals@),
{
    let mut acc: u64 = 0;
    let mut i: usize = 0;
    while i < fields.len()
        invariant
            i <= fields.len(),
            fields.len() == vals.len(),
            forall|k: int| 0 <= k < fields.len() ==> in_unit(#[trigger] fields[k].offset, fields[k].width),
            acc == ctor_bits(fields@.subrange(0, i as int), vals@.subrange(0, i as int)),
        decreases fields.len() - i,
    {
        let f = &fields[i];
        acc = acc | ((vals[i] << f.offset) & mask(f.offset, f.width));
        proof {
            let fs = fields@.subrange(0, i + 1);
            let vs = vals@.subrange(0, i + 1);
            assert(fs.drop_last() =~= fields@.subrange(0, i as int));
            assert(vs.drop_last() =~= vals@.subrange(0, i as int));
        }
        i = i + 1;
    }
    proof {
        assert(fields@.subrange(0, i as int) =~= fields@);
        assert(vals@.subrange(0, i as int) =~= vals@);
    }
    acc
}

proof fn ctor_bits_outside_mask(fields: Seq<Bitfield>, vals: Seq<u64>, m: u64)
    requires
        forall|j: int| 0 <= j < fields.len() ==> mask_of(#[trigger] fields[j].offset, fields[j].width) & m == 0,
    ensures
        ctor_bits(fields, vals) & m == 0,
    decreases fields.len(),
{
    if fields.len() != 0 && vals.len() != 0 {
        let f = fields.last();
        let rest = ctor_bits(fields.drop_last(), vals.drop_last());
        let fm = mask_of(f.offset, f.width);
        let v = vals.last();
        assert forall|j: int| 0 <= j < fields.drop_last().len() implies
            mask_of(#[trigger] fields.drop_last()[j].offset, fields.drop_last()[j].width) & m == 0 by {
            assert(fields.drop_last()[j] == fields[j]);
        }
        ctor_bits_outside_mask(fields.drop_last(), vals.drop_last(), m);
        assert(fm & m == 0);
        let off = f.offset;
        assert((rest | ((v << off) & fm)) & m == 0) by (bit_vector)
            requires
                rest & m == 0,
                fm & m == 0,
        ;
    } else {
        assert(0u64 & m == 0) by (bit_vector);
    }
}

/// Building a unit with the constructor and then reading each bitfield
/// gives back the value handed for it, when the bitfields are disjoint and
/// each value fits its width.
pub proof fn ctor_then_get(fields: Seq<Bitfield>, vals: Seq<u64>, i: int)
    requires
        fields.len() == vals.len(),
        disjoint_fields(fields),
        0 <= i < fields.len(),
        forall|k: int| 0 <= k < fields.len() ==> fits_width(#[trigger] vals[k], fields[k].width),
    ensures
        get_bits(ctor_bits(fields, vals), fields[i].offset, fields[i].width) == vals[i],
    decreases fields.len(),
{
    let n = fields.len() - 1;
    let f = fields.last();
    let fs = fields.drop_last();
    let vs = vals.drop_last();
    let rest = ctor_bits(fs, vs);
    let fm = mask_of(f.offset, f.width);
    let v = vals.last();
    let off = fields[i].offset;
    let w = fields[i].width;
    let mi = mask_of(off, w);
    if i == n {
        assert forall|j: int| 0 <= j < fs.len() implies
            mask_of(#[trigger] fs[j].offset, fs[j].width) & fm == 0 by {
            assert(fs[j] == fields[j]);
        }
        ctor_bits_outside_mask(fs, vs, fm);
        let off2 = f.offset;
        let w2 = f.width;
        assert(in_unit(off2, w2));
        assert(fits_width(v, w2));
        assert((((rest | ((v << off2) & mask_of(off2, w2))) & mask_of(off2, w2)) >> off2) == v) by (bit_vector)
            requires
                rest & mask_of(off2, w2) == 0,
                1 <= w2 && w2 <= 64 && off2 < 64 && off2 + w2 <= 64,
                w2 >= 64 || v < (1u64 << w2),
        ;
    } else {
        assert(fs[i] == fields[i]);
        assert forall|a: int, b: int| 0 <= a < fs.len() && 0 <= b < fs.len() && a != b implies
            mask_of(#[trigger] fs[a].offset, fs[a].width) & mask_of(#[trigger] fs[b].offset, fs[b].width) == 0 by {
            assert(fs[a] == fields[a]);
            assert(fs[b] == fields[b]);
        }
        assert forall|k: int| 0 <= k < fs.len() implies fits_width(#[trigger] vs[k], fs[k].width) by {
            assert(fs[k] == fields[k]);
            assert(vs[k] == vals[k]);
        }
        ctor_then_get(fs, vs, i);
        assert(mi & fm == 0);
        let off2 = f.offset;
        assert((((rest | ((v << off2) & fm)) & mi) >> off) == ((rest & mi) >> off)) by (bit_vector)
            requires
                mi & fm == 0,
        ;
        assert(vs[i] == vals[i]);
    }
}


/// The unsigned integer through which the accessors of a unit of `size`
/// bytes work: the smallest of `u8`, `u16`, `u32`, `u64` that holds the unit.
/// Units above eight bytes get no accessors.
pub open spec fn unit_int_ty(size: u64) -> Option<Seq<char>> {
    if size <= 1 { Some("u8"@) }
    else if size == 2 { Some("u16"@) }
    else if size <= 4 { Some("u32"@) }
    else if size <= 8 { Some("u64"@) }
    else { None }
}

pub fn unit_int_type(size: u64) -> (r: Option<&'static str>)
    ensures
        r.is_some() == unit_int_ty(size).is_some(),
        r.is_some() ==> r.unwrap()@ == unit_int_ty(size).unwrap(),
{
    if size <= 1 { Some("u8") }
    else if size == 2 { Some("u16") }
    else if size <= 4 { Some("u32") }
    else if size <= 8 { Some("u64") }
    else { None }
}

/// Whether one of the parent's methods is named `name`.
pub fn parent_has_method(methods: &Vec<String>, name: &String) -> (r: bool)
    ensures
        r == exists|i: int| 0 <= i < methods.len() && #[trigger] methods[i]@ == name@,
{
    let mut i: usize = 0;
    while i < methods.len()
        invariant
            i <= methods.len(),
            forall|k: int| 0 <= k < i ==> #[trigger] methods[k]@ != name@,
        decreases methods.len() - i,
    {
        if methods[i] == *name {
            return true;
        }
        i = i + 1;
    }
    false
}

/// `name`, or `name` with `_bindgen_bitfield` after it when the parent
/// already has a method of that name.
pub open spec fn avoid_method_name(methods: Seq<String>, name: Seq<char>) -> Seq<char> {
    if exists|i: int| 0 <= i < methods.len() && #[trigger] methods[i]@ == name {
        name + "_bindgen_bitfield"@
    } else {
        name
    }
}

fn avoid_method(methods: &Vec<String>, name: String) -> (r: String)
    ensures
        r@ == avoid_method_name(methods@, name@),
{
    if parent_has_method(methods, &name) {
        let mut n = name;
        n.append("_bindgen_bitfield");
        n
    } else {
        name
    }
}

/// The getter of a bitfield: its name, kept clear of the parent's methods.
pub fn bitfield_getter_name(methods: &Vec<String>, bitfield_name: &String) -> (r: String)
    ensures
        r@ == avoid_method_name(methods@, bitfield_name@),
{
    avoid_method(methods, bitfield_name.clone())
}

/// The setter of a bitfield: `set_` and its name, kept clear of the
/// parent's methods.
pub fn bitfield_setter_name(methods: &Vec<String>, bitfield_name: &String) -> (r: String)
    ensures
        r@ == avoid_method_name(methods@, "set_"@ + bitfield_name@),
{
    let mut n = String::from_str("set_");
    n.append(bitfield_name.as_str());
    avoid_method(methods, n)
}

/// `_bitfield_N`: the storage field of the `N`th unit.
pub open spec fn unit_field_name(nth: u64) -> Seq<char> {
    "_bitfield_"@ + dec(nth as nat)
}

/// `new_bitfield_N`: the constructor of the `N`th unit.
pub open spec fn unit_ctor_name(nth: u64) -> Seq<char> {
    "new_bitfield_"@ + dec(nth as nat)
}

pub fn ctor_name(unit: &BitfieldUnit) -> (r: String)
    ensures
        r@ == unit_ctor_name(unit.nth),
{
    let mut s = String::from_str("new_bitfield_");
    push_decimal(&mut s, unit.nth);
    s
}

/// The line that reads the unit's storage into a local integer.
pub open spec fn load_text(unit_field: Seq<char>, int_ty: Seq<char>) -> Seq<char> {
    "let mut unit_field_val: "@ + int_ty + " = unsafe { ::std::mem::uninitialized() }; unsafe { ::std::ptr::copy_nonoverlapping(&self."@
        + unit_field + " as *const _ as *const u8, &mut unit_field_val as *mut "@ + int_ty
        + " as *mut u8, ::std::mem::size_of::<"@ + int_ty + ">()) };\n"@
}

fn load(unit_field: &String, int_ty: &str) -> (r: String)
    ensures
        r@ == load_text(unit_field@, int_ty@),
{
    let mut s = String::from_str("let mut unit_field_val: ");
    s.append(int_ty);
    s.append(" = unsafe { ::std::mem::uninitialized() }; unsafe { ::std::ptr::copy_nonoverlapping(&self.");
    s.append(unit_field.as_str());
    s.append(" as *const _ as *const u8, &mut unit_field_val as *mut ");
    s.append(int_ty);
    s.append(" as *mut u8, ::std::mem::size_of::<");
    s.append(int_ty);
    s.append(">()) };\n");
    s
}

/// For a signed bitfield, the line that sign-extends the value read from
/// its width to 64 bits.
pub open spec fn sign_extend_text(bf: Bitfield) -> Seq<char> {
    if bf.signed {
        "let val = (((val as u64) << "@ + dec((64 - bf.width) as nat) + "usize) as i64 >> "@
            + dec((64 - bf.width) as nat) + "usize) as u64;\n"@
    } else {
        Seq::empty()
    }
}

/// The getter of a bitfield: load the unit, mask, shift down, sign-extend
/// a signed bitfield, reinterpret as the bitfield's type.
pub open spec fn getter_text(name: Seq<char>, bf: Bitfield, unit_field: Seq<char>, int_ty: Seq<char>) -> Seq<char> {
    "#[inline]\npub fn "@ + name + "(&self) -> "@ + bf.ty@ + " {\n"@ + load_text(unit_field, int_ty)
        + "let mask = "@ + dec(mask_of(bf.offset, bf.width) as nat) + "u64 as "@ + int_ty
        + ";\nlet val = (unit_field_val & mask) >> "@ + dec(bf.offset as nat)
        + "usize;\n"@ + sign_extend_text(bf) + "unsafe { ::std::mem::transmute(val as "@ + blob_text(bf.ty_layout) + ") }\n}"@
}

/// The setter of a bitfield: load the unit, clear the bitfield's bits, or
/// in the shifted value, store the unit back.
pub open spec fn setter_text(name: Seq<char>, bf: Bitfield, unit_field: Seq<char>, int_ty: Seq<char>) -> Seq<char> {
    "#[inline]\npub fn "@ + name + "(&mut self, val: "@ + bf.ty@ + ") {\nlet mask = "@
        + dec(mask_of(bf.offset, bf.width) as nat) + "u64 as "@ + int_ty + ";\nlet val = val as "@
        + blob_text(bf.ty_layout) + " as "@ + int_ty + ";\n"@ + load_text(unit_field, int_ty)
        + "unit_field_val &= !mask;\nunit_field_val |= (val << "@ + dec(bf.offset as nat)
        + "usize) & mask;\nunsafe { ::std::ptr::copy_nonoverlapping(&unit_field_val as *const _ as *const u8, &mut self."@
        + unit_field + " as *mut _ as *mut u8, ::std::mem::size_of::<"@ + int_ty + ">()); }\n}"@
}

fn getter(name: &String, bf: &Bitfield, unit_field: &String, int_ty: &str) -> (r: String)
    requires
        in_unit(bf.offset, bf.width),
    ensures
        r@ == getter_text(name@, *bf, unit_field@, int_ty@),
{
    let mut s = String::from_str("#[inline]\npub fn ");
    s.append(name.as_str());
    s.append("(&self) -> ");
    s.append(bf.ty.as_str());
    s.append(" {\n");
    let l = load(unit_field, int_ty);
    s.append(l.as_str());
    s.append("let mask = ");
    push_decimal(&mut s, mask(bf.offset, bf.width));
    s.append("u64 as ");
    s.append(int_ty);
    s.append(";\nlet val = (unit_field_val & mask) >> ");
    push_decimal(&mut s, bf.offset);
    s.append("usize;\n");
    if bf.signed {
        s.append("let val = (((val as u64) << ");
        push_decimal(&mut s, 64 - bf.width);
        s.append("usize) as i64 >> ");
        push_decimal(&mut s, 64 - bf.width);
        s.append("usize) as u64;\n");
    }
    s.append("unsafe { ::std::mem::transmute(val as ");
    let b = blob(bf.ty_layout);
    s.append(b.as_str());
    s.append(") }\n}");
    proof {
        if !bf.signed {
            assert(s@ =~= getter_text(name@, *bf, unit_field@, int_ty@));
        }
    }
    s
}

fn setter(name: &String, bf: &Bitfield, unit_field: &String, int_ty: &str) -> (r: String)
    requires
        in_unit(bf.offset, bf.width),
    ensures
        r@ == setter_text(name@, *bf, unit_field@, int_ty@),
{
    let mut s = String::from_str("#[inline]\npub fn ");
    s.append(name.as_str());
    s.append("(&mut self, val: ");
    s.append(bf.ty.as_str());
    s.append(") {\nlet mask = ");
    push_decimal(&mut s, mask(bf.offset, bf.width));
    s.append("u64 as ");
    s.append(int_ty);
    s.append(";\nlet val = val as ");
    let b = blob(bf.ty_layout);
    s.append(b.as_str());
    s.append(" as ");
    s.append(int_ty);
    s.append(";\n");
    let l = load(unit_field, int_ty);
    s.append(l.as_str());
    s.append("unit_field_val &= !mask;\nunit_field_val |= (val << ");
    push_decimal(&mut s, bf.offset);
    s.append("usize) & mask;\nunsafe { ::std::ptr::copy_nonoverlapping(&unit_field_val as *const _ as *const u8, &mut self.");
    s.append(unit_field.as_str());
    s.append(" as *mut _ as *mut u8, ::std::mem::size_of::<");
    s.append(int_ty);
    s.append(">()); }\n}");
    s
}


/// The text of the views of a list of strings.
pub open spec fn views(v: Seq<String>) -> Seq<Seq<char>> {
    v.map_values(|s: String| s@)
}

/// The getter and the setter of each bitfield, in order.
pub open spec fn accessors_text(methods: Seq<String>, bfs: Seq<Bitfield>, unit_field: Seq<char>, int_ty: Seq<char>) -> Seq<Seq<char>>
    decreases bfs.len(),
{
    if bfs.len() == 0 {
        Seq::empty()
    } else {
        let bf = bfs.last();
        accessors_text(methods, bfs.drop_last(), unit_field, int_ty)
            .push(getter_text(avoid_method_name(methods, bf.name@), bf, unit_field, int_ty))
            .push(setter_text(avoid_method_name(methods, "set_"@ + bf.name@), bf, unit_field, int_ty))
    }
}

/// The constructor's parameters: each bitfield under its getter's name,
/// with its type, separated by commas.
pub open spec fn ctor_params_text(methods: Seq<String>, bfs: Seq<Bitfield>) -> Seq<char>
    decreases bfs.len(),
{
    if bfs.len() == 0 {
        Seq::empty()
    } else {
        let bf = bfs.last();
        let param = avoid_method_name(methods, bf.name@) + ": "@ + bf.ty@;
        if bfs.len() == 1 { param } else { ctor_params_text(methods, bfs.drop_last()) + ", "@ + param }
    }
}

/// The constructor's body: starting from `0`, each parameter shifted to its
/// offset, cut to its mask and or-ed in.
pub open spec fn ctor_body_text(methods: Seq<String>, bfs: Seq<Bitfield>, int_ty: Seq<char>) -> Seq<char>
    decreases bfs.len(),
{
    if bfs.len() == 0 {
        "0"@
    } else {
        let bf = bfs.last();
        "("@ + ctor_body_text(methods, bfs.drop_last(), int_ty) + " | (("@ + avoid_method_name(methods, bf.name@)
            + " as "@ + blob_text(bf.ty_layout) + " as "@ + int_ty + ") << "@ + dec(bf.offset as nat)
            + "usize) & ("@ + dec(mask_of(bf.offset, bf.width) as nat) + "u64 as "@ + int_ty + "))"@
    }
}

pub open spec fn ctor_text(methods: Seq<String>, unit: BitfieldUnit, int_ty: Seq<char>, const_fn: bool) -> Seq<char> {
    "#[inline]\npub "@ + (if const_fn { "const "@ } else { Seq::empty() }) + "fn "@ + unit_ctor_name(unit.nth)
        + "("@ + ctor_params_text(methods, unit.bitfields@) + ") -> "@ + int_ty + " {\n"@
        + ctor_body_text(methods, unit.bitfields@, int_ty) + "\n}"@
}

/// The storage field of a unit: a blob of the unit's layout.
pub open spec fn unit_field_text(unit: BitfieldUnit) -> Seq<char> {
    "pub "@ + unit_field_name(unit.nth) + ": "@ + blob_text(unit.layout) + ","@
}

/// What a unit adds to the methods of its composite: the accessors of its
/// bitfields and its constructor, or nothing for a unit above eight bytes.
pub open spec fn unit_methods_text(methods: Seq<String>, unit: BitfieldUnit, const_fn: bool) -> Seq<Seq<char>> {
    match unit_int_ty(unit.layout.size) {
        Some(int_ty) => accessors_text(methods, unit.bitfields@, unit_field_name(unit.nth), int_ty)
            .push(ctor_text(methods, unit, int_ty, const_fn)),
        None => Seq::empty(),
    }
}

/// When the unit gets accessors (it holds in eight bytes), every bitfield
/// lies inside its 64 bits.
pub open spec fn unit_well_formed(unit: BitfieldUnit) -> bool {
    unit_int_ty(unit.layout.size) is Some ==>
        forall|i: int| 0 <= i < unit.bitfields.len() ==> in_unit(#[trigger] unit.bitfields[i].offset, unit.bitfields[i].width)
}

/// The code of a bitfield unit: its storage field and its methods.
pub struct UnitCode {
    pub field: String,
    pub methods: Vec<String>,
}

fn ctor_step(body: &String, gname: &String, bf: &Bitfield, int_ty: &str) -> (r: String)
    requires
        in_unit(bf.offset, bf.width),
    ensures
        r@ == "("@ + body@ + " | (("@ + gname@ + " as "@ + blob_text(bf.ty_layout) + " as "@ + int_ty@ + ") << "@
            + dec(bf.offset as nat) + "usize) & ("@ + dec(mask_of(bf.offset, bf.width) as nat) + "u64 as "@
            + int_ty@ + "))"@,
{
    let mut nb = String::from_str("(");
    nb.append(body.as_str());
    nb.append(" | ((");
    nb.append(gname.as_str());
    nb.append(" as ");
    let tb = blob(bf.ty_layout);
    nb.append(tb.as_str());
    nb.append(" as ");
    nb.append(int_ty);
    nb.append(") << ");
    push_decimal(&mut nb, bf.offset);
    nb.append("usize) & (");
    push_decimal(&mut nb, mask(bf.offset, bf.width));
    nb.append("u64 as ");
    nb.append(int_ty);
    nb.append("))");
    nb
}

/// Emits a bitfield unit. `methods` are the names of the parent's own
/// methods, which accessor names stay clear of.
pub fn codegen_bitfield_unit(unit: &BitfieldUnit, methods: &Vec<String>, const_fn: bool) -> (r: UnitCode)
    requires
        unit_well_formed(*unit),
    ensures
        r.field@ == unit_field_text(*unit),
        views(r.methods@) == unit_methods_text(methods@, *unit, const_fn),
{
    let mut field = String::from_str("pub ");
    let mut unit_field = String::from_str("_bitfield_");
    push_decimal(&mut unit_field, unit.nth);
    field.append(unit_field.as_str());
    field.append(": ");
    let b = blob(unit.layout);
    field.append(b.as_str());
    field.append(",");
    let mut out: Vec<String> = Vec::new();
    let int_ty = match unit_int_type(unit.layout.size) {
        Some(t) => t,
        None => {
            proof {
                assert(views(out@) =~= Seq::<Seq<char>>::empty());
            }
            return UnitCode { field, methods: out };
        }
    };
    let ghost bfs = unit.bitfields@;
    let mut params = String::new();
    let mut body = String::from_str("0");
    let mut i: usize = 0;
    while i < unit.bitfields.len()
        invariant
            i <= bfs.len(),
            bfs == unit.bitfields@,
            unit_well_formed(*unit),
            unit_int_ty(unit.layout.size) is Some,
            unit_field@ == unit_field_name(unit.nth),
            views(out@) == accessors_text(methods@, bfs.subrange(0, i as int), unit_field@, int_ty@),
            params@ == ctor_params_text(methods@, bfs.subrange(0, i as int)),
            body@ == ctor_body_text(methods@, bfs.subrange(0, i as int), int_ty@),
        decreases bfs.len() - i,
    {
        let bf = &unit.bitfields[i];
        proof {
            assert(in_unit(unit.bitfields[i as int].offset, unit.bitfields[i as int].width));
        }
        let gname = bitfield_getter_name(methods, &bf.name);
        let sname = bitfield_setter_name(methods, &bf.name);
        let g = getter(&gname, bf, &unit_field, int_ty);
        let st = setter(&sname, bf, &unit_field, int_ty);
        let ghost prev = out@;
        out.push(g);
        out.push(st);
        if i > 0 {
            params.append(", ");
        }
        params.append(gname.as_str());
        params.append(": ");
        params.append(bf.ty.as_str());
        body = ctor_step(&body, &gname, bf, int_ty);
        proof {
            let sub = bfs.subrange(0, i + 1);
            assert(sub.drop_last() =~= bfs.subrange(0, i as int));
            assert(sub.last() == bfs[i as int]);
            assert(views(out@) =~= views(prev).push(g@).push(st@));
            if i == 0 {
                assert(Seq::<char>::empty() + gname@ + ": "@ + bf.ty@ =~= gname@ + ": "@ + bf.ty@);
            }
        }
        i = i + 1;
    }
    proof {
        assert(bfs.subrange(0, i as int) =~= bfs);
    }
    let mut ctor = String::from_str("#[inline]\npub ");
    if const_fn {
        ctor.append("const ");
    }
    ctor.append("fn ");
    let cn = ctor_name(unit);
    ctor.append(cn.as_str());
    ctor.append("(");
    ctor.append(params.as_str());
    ctor.append(") -> ");
    ctor.append(int_ty);
    ctor.append(" {\n");
    ctor.append(body.as_str());
    ctor.append("\n}");
    let ghost prev = out@;
    proof {
        if !const_fn {
            assert("#[inline]\npub "@ + Seq::<char>::empty() =~= "#[inline]\npub "@);
        }
    }
    out.push(ctor);
    proof {
        assert(views(out@) =~= views(prev).push(ctor@));
    }
    UnitCode { field, methods: out }
}


/// The low `width` bits set.
pub open spec fn low_bits(width: u64) -> u64 {
    if width >= 64 { 0xffff_ffff_ffff_ffffu64 } else { ((1u64 << width) - 1) as u64 }
}

/// A value of `width` bits, as two's complement, sign-extended to 64 bits.
pub open spec fn sign_extend(x: u64, width: u64) -> u64 {
    if width < 64 && (x >> ((width - 1) as u64)) & 1 == 1 { x | !low_bits(width) } else { x }
}

/// The values a signed bitfield of `width` bits can hold, as 64-bit two's
/// complement: those its low bits sign-extend back to.
pub open spec fn fits_signed(v: u64, width: u64) -> bool {
    sign_extend(v & low_bits(width), width) == v
}

/// What the getter of a signed bitfield reads: the bits, sign-extended.
pub fn get_signed_bitfield(unit: u64, offset: u64, width: u64) -> (r: u64)
    requires
        in_unit(offset, width),
    ensures
        r == sign_extend(get_bits(unit, offset, width), width),
{
    let x = get_bitfield(unit, offset, width);
    if width < 64 && (x >> (width - 1)) & 1 == 1 {
        proof {
            assert(1u64 << width >= 1) by (bit_vector)
                requires
                    width < 64,
            ;
        }
        let low: u64 = (1u64 << width) - 1;
        x | !low
    } else {
        x
    }
}

/// Setting a signed bitfield to a value it can hold, then reading it with
/// sign extension, gives that value back.
pub proof fn signed_set_then_get(unit: u64, offset: u64, width: u64, v: u64)
    requires
        in_unit(offset, width),
        fits_signed(v, width),
    ensures
        sign_extend(get_bits(set_bits(unit, offset, width, v), offset, width), width) == v,
{
    assert(((((unit & !mask_of(offset, width)) | ((v << offset) & mask_of(offset, width)))
        & mask_of(offset, width)) >> offset) == v & low_bits(width)) by (bit_vector)
        requires
            1 <= width && width <= 64 && offset < 64 && offset + width <= 64,
    ;
}

} // verus!
