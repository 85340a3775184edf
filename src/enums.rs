use vstd::prelude::*;
use crate::bitfield::views;
use crate::text::{dec, decimal};

verus! {

/// The value of an enum variant, as the C declaration gave it.
#[derive(Clone, Copy, Debug, PartialEq, Eq, Structural)]
pub enum VariantValue {
    Signed(i64),
    Unsigned(u64),
}

#[derive(Debug)]
pub struct EnumVariant {
    pub name: String,
    pub value: VariantValue,
    pub hidden: bool,
    pub force_constification: bool,
}

/// How an enum is emitted.
#[derive(Clone, Copy, Debug, PartialEq, Eq, Structural)]
pub enum EnumVariation {
    /// A language enum with one arm per distinct value.
    Rust,
    /// A newtype over the integer, with one constant per variant and the
    /// bitwise operators.
    Bitfield,
    /// A type alias of the integer, with one constant per variant.
    Consts,
    /// A module holding a type alias of the integer and the constants.
    ModuleConsts,
}

/// An enum declaration, with the names the emitter needs.
#[derive(Debug)]
pub struct EnumDecl {
    /// The canonical name of the enum.
    pub name: String,
    /// The text by which the emitted type is referred to.
    pub rust_ty: String,
    /// Whether the C declaration names the enum.
    pub named: bool,
    /// The canonical name of the enclosing item, when the enum is not at the
    /// top level.
    pub parent_name: Option<String>,
    pub comment: Option<String>,
    pub repr_signed: bool,
    /// Size in bytes of the underlying integer.
    pub repr_size: u64,
    pub variants: Vec<EnumVariant>,
}

/// The style chosen from the two configuration answers for this enum.
pub open spec fn variation_of(bitfield: bool, constify: bool, constify_module: bool) -> EnumVariation {
    if bitfield { EnumVariation::Bitfield }
    else if constify && constify_module { EnumVariation::ModuleConsts }
    else if constify { EnumVariation::Consts }
    else { EnumVariation::Rust }
}

pub fn enum_variation(bitfield: bool, constify: bool, constify_module: bool) -> (r: EnumVariation)
    ensures
        r == variation_of(bitfield, constify, constify_module),
{
    if bitfield { EnumVariation::Bitfield }
    else if constify && constify_module { EnumVariation::ModuleConsts }
    else if constify { EnumVariation::Consts }
    else { EnumVariation::Rust }
}

/// The integer type behind the enum; `i32` when signedness and size match
/// no integer.
pub open spec fn repr_name_of(signed: bool, size: u64) -> Seq<char> {
    if size == 1 { if signed { "i8"@ } else { "u8"@ } }
    else if size == 2 { if signed { "i16"@ } else { "u16"@ } }
    else if size == 4 { if signed { "i32"@ } else { "u32"@ } }
    else if size == 8 { if signed { "i64"@ } else { "u64"@ } }
    else { "i32"@ }
}

pub fn repr_name(signed: bool, size: u64) -> (r: &'static str)
    ensures
        r@ == repr_name_of(signed, size),
{
    if size == 1 { if signed { "i8" } else { "u8" } }
    else if size == 2 { if signed { "i16" } else { "u16" } }
    else if size == 4 { if signed { "i32" } else { "u32" } }
    else if size == 8 { if signed { "i64" } else { "u64" } }
    else { "i32" }
}

/// A variant's value as an integer literal.
pub open spec fn value_text(v: VariantValue) -> Seq<char> {
    match v {
        VariantValue::Signed(x) => if x < 0 { "-"@ + dec((-x) as nat) } else { dec(x as nat) },
        VariantValue::Unsigned(x) => dec(x as nat),
    }
}

pub fn value_expr(v: VariantValue) -> (r: String)
    ensures
        r@ == value_text(v),
{
    match v {
        VariantValue::Signed(x) => {
            if x < 0 {
                let m: u64 = ((-(x + 1)) as u64) + 1;
                let mut s = String::from_str("-");
                let d = decimal(m);
                s.append(d.as_str());
                s
            } else {
                decimal(x as u64)
            }
        },
        VariantValue::Unsigned(x) => decimal(x),
    }
}

/// The order in which variants are handled: the visible ones in declaration
/// order, except that a variant whose constification is forced and which is
/// not the last one waits until all others are done.
pub open spec fn waits(vs: Seq<EnumVariant>, i: int) -> bool {
    vs[i].force_constification && i < vs.len() - 1
}

pub open spec fn order_prefix(vs: Seq<EnumVariant>, k: int, deferred: bool) -> Seq<int>
    decreases k,
{
    if k <= 0 {
        Seq::empty()
    } else {
        let rest = order_prefix(vs, k - 1, deferred);
        if !vs[k - 1].hidden && waits(vs, k - 1) == deferred { rest.push(k - 1) } else { rest }
    }
}

pub open spec fn variant_order(vs: Seq<EnumVariant>) -> Seq<int> {
    order_prefix(vs, vs.len() as int, false) + order_prefix(vs, vs.len() as int, true)
}


/// What the emitter has built after some variants: the first variant name
/// seen for each value, the arms of a language enum, the items emitted
/// before the enum itself, and the lines inside it.
pub struct EnumState {
    pub seen: Map<VariantValue, Seq<char>>,
    pub arms: Seq<(Seq<char>, VariantValue)>,
    pub items: Seq<Seq<char>>,
    pub body: Seq<Seq<char>>,
}

pub open spec fn opt_text(o: Option<String>) -> Option<Seq<char>> {
    match o {
        Some(s) => Some(s@),
        None => None,
    }
}

/// The prefix of variant constants: the enum's name, or for an unnamed enum
/// the enclosing item's name, when enum names are prepended.
pub open spec fn const_prefix(d: EnumDecl, prepend: bool) -> Option<Seq<char>> {
    if !prepend { None } else if d.named { Some(d.name@) } else { opt_text(d.parent_name) }
}

pub open spec fn prefixed(prefix: Option<Seq<char>>, name: Seq<char>) -> Seq<char> {
    match prefix {
        Some(p) => p + "_"@ + name,
        None => name,
    }
}

/// A constant that names an arm of the language enum.
pub open spec fn alias_text(d: EnumDecl, prepend: bool, base: Seq<char>, referenced: Seq<char>) -> Seq<char> {
    let cname = if d.named && prepend { d.name@ + "_"@ + base } else { base };
    "pub const "@ + cname + ": "@ + d.rust_ty@ + " = "@ + d.name@ + "::"@ + referenced + ";"@
}

/// A variant added under the enum's style.
pub open spec fn with_variant(d: EnumDecl, style: EnumVariation, prepend: bool, s: EnumState, v: EnumVariant) -> EnumState {
    let val = value_text(v.value);
    let cname = prefixed(const_prefix(d, prepend), v.name@);
    match style {
        EnumVariation::Rust => EnumState {
            arms: s.arms.push((v.name@, v.value)),
            body: s.body.push(v.name@ + " = "@ + val + ","@),
            ..s
        },
        EnumVariation::Bitfield => EnumState {
            items: s.items.push("pub const "@ + cname + ": "@ + d.rust_ty@ + " = "@ + d.rust_ty@ + "("@ + val + ");"@),
            ..s
        },
        EnumVariation::Consts => EnumState {
            items: s.items.push("pub const "@ + cname + ": "@ + d.rust_ty@ + " = "@ + val + ";"@),
            ..s
        },
        EnumVariation::ModuleConsts => EnumState {
            body: s.body.push("pub const "@ + v.name@ + ": Type = "@ + val + ";"@),
            ..s
        },
    }
}

/// `name`, or the enclosing item's name, `_` and `name` when there is one and
/// `qualify` holds.
pub open spec fn parent_qualified(d: EnumDecl, qualify: bool, name: Seq<char>) -> Seq<char> {
    match d.parent_name {
        Some(p) => if qualify { p@ + "_"@ + name } else { name },
        None => name,
    }
}

/// One variant handled. A value already seen becomes, in a language enum, a
/// constant naming the first arm with that value; otherwise the variant is
/// added, and an unnamed language enum or a forced constification also
/// gets a constant for it.
pub open spec fn step(d: EnumDecl, style: EnumVariation, prepend: bool, s: EnumState, v: EnumVariant) -> EnumState {
    if s.seen.contains_key(v.value) {
        if style == EnumVariation::Rust {
            let base = parent_qualified(d, !d.named, v.name@);
            EnumState { items: s.items.push(alias_text(d, prepend, base, s.seen[v.value])), ..s }
        } else {
            with_variant(d, style, prepend, s, v)
        }
    } else {
        let s2 = with_variant(d, style, prepend, s, v);
        let s3 = if (style == EnumVariation::Rust && !d.named) || v.force_constification {
            EnumState { items: s2.items.push(alias_text(d, prepend, parent_qualified(d, true, v.name@), v.name@)), ..s2 }
        } else {
            s2
        };
        EnumState { seen: s3.seen.insert(v.value, v.name@), ..s3 }
    }
}

pub open spec fn empty_state() -> EnumState {
    EnumState { seen: Map::empty(), arms: Seq::empty(), items: Seq::empty(), body: Seq::empty() }
}

/// The state after the variants at positions `order[..k]`.
pub open spec fn run(d: EnumDecl, style: EnumVariation, prepend: bool, order: Seq<int>, k: int) -> EnumState
    decreases k,
{
    if k <= 0 {
        empty_state()
    } else {
        step(d, style, prepend, run(d, style, prepend, order, k - 1), d.variants@[order[k - 1]])
    }
}


pub open spec fn order_values(d: EnumDecl, order: Seq<int>) -> Seq<VariantValue> {
    order.map_values(|i: int| d.variants@[i].value)
}

pub open spec fn arm_values(st: EnumState) -> Seq<VariantValue> {
    st.arms.map_values(|a: (Seq<char>, VariantValue)| a.1)
}

pub open spec fn valid_order(d: EnumDecl, order: Seq<int>) -> bool {
    forall|i: int| 0 <= i < order.len() ==> 0 <= #[trigger] order[i] < d.variants.len()
}

/// Position `j` of `order` is the first with its value.
pub open spec fn first_of_value(d: EnumDecl, order: Seq<int>, j: int) -> bool {
    forall|i: int| 0 <= i < j ==> d.variants@[order[i]].value != #[trigger] d.variants@[order[j]].value
}

/// The constant by which the variant at position `m` names the arm of the
/// variant at position `j`.
pub open spec fn duplicate_alias(d: EnumDecl, prepend: bool, order: Seq<int>, j: int, m: int) -> Seq<char> {
    alias_text(d, prepend, parent_qualified(d, !d.named, d.variants@[order[m]].name@), d.variants@[order[j]].name@)
}

proof fn run_rust_invariant(d: EnumDecl, prepend: bool, order: Seq<int>, k: int)
    requires
        valid_order(d, order),
        0 <= k <= order.len(),
    ensures
        ({
            let st = run(d, EnumVariation::Rust, prepend, order, k);
            &&& forall|v: VariantValue| st.seen.contains_key(v) ==> exists|j: int|
                0 <= j < k && #[trigger] d.variants@[order[j]].value == v && first_of_value(d, order, j)
                    && st.seen[v] == d.variants@[order[j]].name@
            &&& forall|j: int| 0 <= j < k ==> st.seen.contains_key(#[trigger] d.variants@[order[j]].value)
            &&& arm_values(st).no_duplicates()
            &&& forall|v: VariantValue| arm_values(st).contains(v) <==> st.seen.contains_key(v)
            &&& forall|j: int, m: int| 0 <= j < m < k && d.variants@[order[j]].value == d.variants@[order[m]].value
                && first_of_value(d, order, j) ==> st.items.contains(#[trigger] duplicate_alias(d, prepend, order, j, m))
        }),
    decreases k,
{
    if k > 0 {
        run_rust_invariant(d, prepend, order, k - 1);
        let s = run(d, EnumVariation::Rust, prepend, order, k - 1);
        let st = run(d, EnumVariation::Rust, prepend, order, k);
        let v = d.variants@[order[k - 1]];
        assert(st == step(d, EnumVariation::Rust, prepend, s, v));
        assert forall|j: int, m: int| 0 <= j < m < k - 1 && d.variants@[order[j]].value == d.variants@[order[m]].value
            && first_of_value(d, order, j) implies st.items.contains(#[trigger] duplicate_alias(d, prepend, order, j, m)) by {
            let x = duplicate_alias(d, prepend, order, j, m);
            assert(s.items.contains(x));
            let idx = choose|idx: int| 0 <= idx < s.items.len() && s.items[idx] == x;
            assert(st.items[idx] == x);
        }
        if s.seen.contains_key(v.value) {
            let j0 = choose|j: int| 0 <= j < k - 1 && #[trigger] d.variants@[order[j]].value == v.value
                && first_of_value(d, order, j) && s.seen[v.value] == d.variants@[order[j]].name@;
            assert forall|j: int| 0 <= j < k - 1 && d.variants@[order[j]].value == v.value
                && first_of_value(d, order, j) implies j == j0 by {
                if j < j0 {
                    assert(d.variants@[order[j]].value != d.variants@[order[j0]].value);
                } else if j > j0 {
                    assert(d.variants@[order[j0]].value != d.variants@[order[j]].value);
                }
            }
            assert(st.items.last() == duplicate_alias(d, prepend, order, j0, k - 1));
            assert(arm_values(st) =~= arm_values(s));
        } else {
            assert(first_of_value(d, order, k - 1));
            assert(arm_values(st) =~= arm_values(s).push(v.value));
            assert(!arm_values(s).contains(v.value));
            assert(st.seen == s.seen.insert(v.value, v.name@));
            let av = arm_values(st);
            assert(av[av.len() - 1] == v.value);
            assert forall|a: int, b: int| 0 <= a < av.len() && 0 <= b < av.len() && a != b implies av[a] != av[b] by {
                if a == av.len() - 1 {
                    assert(arm_values(s)[b] == av[b]);
                } else if b == av.len() - 1 {
                    assert(arm_values(s)[a] == av[a]);
                } else {
                    assert(arm_values(s)[a] == av[a]);
                    assert(arm_values(s)[b] == av[b]);
                }
            }
            assert forall|j: int| 0 <= j < k implies st.seen.contains_key(#[trigger] d.variants@[order[j]].value) by {
                if j < k - 1 {
                    assert(s.seen.contains_key(d.variants@[order[j]].value));
                }
            }
            assert forall|x: VariantValue| arm_values(st).contains(x) implies st.seen.contains_key(x) by {
                if x != v.value {
                    let idx = choose|idx: int| 0 <= idx < av.len() && av[idx] == x;
                    assert(idx < av.len() - 1);
                    assert(arm_values(s)[idx] == x);
                    assert(arm_values(s).contains(x));
                }
            }
            assert forall|x: VariantValue| st.seen.contains_key(x) implies arm_values(st).contains(x) by {
                if x == v.value {
                    assert(av[av.len() - 1] == x);
                } else {
                    assert(s.seen.contains_key(x));
                    assert(arm_values(s).contains(x));
                    let idx = choose|idx: int| 0 <= idx < arm_values(s).len() && arm_values(s)[idx] == x;
                    assert(av[idx] == x);
                }
            }
            assert forall|x: VariantValue| st.seen.contains_key(x) implies exists|j: int|
                0 <= j < k && #[trigger] d.variants@[order[j]].value == x && first_of_value(d, order, j)
                    && st.seen[x] == d.variants@[order[j]].name@ by {
                if x == v.value {
                    assert(d.variants@[order[k - 1]].value == x);
                } else {
                    let j = choose|j: int| 0 <= j < k - 1 && #[trigger] d.variants@[order[j]].value == x
                        && first_of_value(d, order, j) && s.seen[x] == d.variants@[order[j]].name@;
                    assert(d.variants@[order[j]].value == x);
                }
            }
        }
    } else {
        assert(arm_values(run(d, EnumVariation::Rust, prepend, order, k)) =~= Seq::<VariantValue>::empty());
    }
}

/// In a language enum there is one arm per distinct value among the handled
/// variants, and each later variant that repeats a value becomes a constant
/// naming the arm of the first variant with that value.
pub proof fn tagged_enum_duplicates(d: EnumDecl, prepend: bool)
    ensures
        ({
            let order = variant_order(d.variants@);
            let st = run(d, EnumVariation::Rust, prepend, order, order.len() as int);
            &&& arm_values(st).no_duplicates()
            &&& arm_values(st).to_set() == order_values(d, order).to_set()
            &&& st.arms.len() == order_values(d, order).to_set().len()
            &&& forall|j: int, m: int| 0 <= j < m < order.len()
                && d.variants@[order[j]].value == d.variants@[order[m]].value
                && first_of_value(d, order, j) ==> st.items.contains(#[trigger] duplicate_alias(d, prepend, order, j, m))
        }),
{
    let order = variant_order(d.variants@);
    order_is_valid(d.variants@);
    let n = order.len() as int;
    run_rust_invariant(d, prepend, order, n);
    let st = run(d, EnumVariation::Rust, prepend, order, n);
    let vals = order_values(d, order);
    assert forall|x: VariantValue| arm_values(st).to_set().contains(x) <==> vals.to_set().contains(x) by {
        if vals.contains(x) {
            let j = choose|j: int| 0 <= j < vals.len() && vals[j] == x;
            assert(d.variants@[order[j]].value == x);
            assert(st.seen.contains_key(d.variants@[order[j]].value));
        }
        if st.seen.contains_key(x) {
            let j = choose|j: int| 0 <= j < n && #[trigger] d.variants@[order[j]].value == x
                && first_of_value(d, order, j) && st.seen[x] == d.variants@[order[j]].name@;
            assert(vals[j] == x);
        }
    }
    assert(arm_values(st).to_set() =~= vals.to_set());
    arm_values(st).unique_seq_to_set();
}

proof fn order_prefix_valid(vs: Seq<EnumVariant>, k: int, deferred: bool)
    requires
        k <= vs.len(),
    ensures
        forall|i: int| 0 <= i < order_prefix(vs, k, deferred).len() ==>
            0 <= #[trigger] order_prefix(vs, k, deferred)[i] < k,
    decreases k,
{
    if k > 0 {
        order_prefix_valid(vs, k - 1, deferred);
        let rest = order_prefix(vs, k - 1, deferred);
        let cur = order_prefix(vs, k, deferred);
        assert forall|i: int| 0 <= i < cur.len() implies 0 <= #[trigger] cur[i] < k by {
            if i < rest.len() {
                assert(cur[i] == rest[i]);
            }
        }
    }
}

proof fn order_is_valid(vs: Seq<EnumVariant>)
    ensures
        forall|i: int| 0 <= i < variant_order(vs).len() ==> 0 <= #[trigger] variant_order(vs)[i] < vs.len(),
{
    let n = vs.len() as int;
    order_prefix_valid(vs, n, false);
    order_prefix_valid(vs, n, true);
    let a = order_prefix(vs, n, false);
    let b = order_prefix(vs, n, true);
    assert forall|i: int| 0 <= i < variant_order(vs).len() implies 0 <= #[trigger] variant_order(vs)[i] < vs.len() by {
        if i < a.len() {
            assert(variant_order(vs)[i] == a[i]);
        } else {
            assert(variant_order(vs)[i] == b[i - a.len()]);
        }
    }
}


/// Lines, each followed by a line break.
pub open spec fn lines(ls: Seq<Seq<char>>) -> Seq<char>
    decreases ls.len(),
{
    if ls.len() == 0 { Seq::empty() } else { lines(ls.drop_last()) + ls.last() + "\n"@ }
}

pub open spec fn seen_matches(seen: Seq<(VariantValue, String)>, m: Map<VariantValue, Seq<char>>) -> bool {
    &&& forall|v: VariantValue| m.contains_key(v) <==> exists|i: int| 0 <= i < seen.len() && #[trigger] seen[i].0 == v
    &&& forall|i: int| 0 <= i < seen.len() ==> m[#[trigger] seen[i].0] == seen[i].1@
}

fn find_value(seen: &Vec<(VariantValue, String)>, v: VariantValue) -> (r: Option<usize>)
    ensures
        r.is_some() ==> r.unwrap() < seen.len() && seen@[r.unwrap() as int].0 == v,
        r.is_none() ==> forall|i: int| 0 <= i < seen.len() ==> #[trigger] seen@[i].0 != v,
{
    let mut i: usize = 0;
    while i < seen.len()
        invariant
            i <= seen.len(),
            forall|k: int| 0 <= k < i ==> #[trigger] seen@[k].0 != v,
        decreases seen.len() - i,
    {
        if seen[i].0 == v {
            return Some(i);
        }
        i = i + 1;
    }
    None
}

fn prefixed_name(d: &EnumDecl, prepend: bool, name: &String) -> (r: String)
    ensures
        r@ == prefixed(const_prefix(*d, prepend), name@),
{
    let prefix: Option<&String> = if !prepend { None } else if d.named { Some(&d.name) } else {
        match &d.parent_name {
            Some(p) => Some(p),
            None => None,
        }
    };
    match prefix {
        Some(p) => {
            let mut s = p.clone();
            s.append("_");
            s.append(name.as_str());
            s
        },
        None => name.clone(),
    }
}

fn qualified_name(d: &EnumDecl, qualify: bool, name: &String) -> (r: String)
    ensures
        r@ == parent_qualified(*d, qualify, name@),
{
    match &d.parent_name {
        Some(p) => if qualify {
            let mut s = p.clone();
            s.append("_");
            s.append(name.as_str());
            s
        } else {
            name.clone()
        },
        None => name.clone(),
    }
}

fn alias(d: &EnumDecl, prepend: bool, base: &String, referenced: &String) -> (r: String)
    ensures
        r@ == alias_text(*d, prepend, base@, referenced@),
{
    let mut s = String::from_str("pub const ");
    if d.named && prepend {
        s.append(d.name.as_str());
        s.append("_");
    }
    s.append(base.as_str());
    s.append(": ");
    s.append(d.rust_ty.as_str());
    s.append(" = ");
    s.append(d.name.as_str());
    s.append("::");
    s.append(referenced.as_str());
    s.append(";");
    s
}

fn add_variant(d: &EnumDecl, style: EnumVariation, prepend: bool, v: &EnumVariant,
    items: &mut Vec<String>, body: &mut String, s: Ghost<EnumState>)
    requires
        views(old(items)@) == s@.items,
        old(body)@ == lines(s@.body),
    ensures
        views(final(items)@) == with_variant(*d, style, prepend, s@, *v).items,
        final(body)@ == lines(with_variant(*d, style, prepend, s@, *v).body),
{
    let val = value_expr(v.value);
    let ghost s2 = with_variant(*d, style, prepend, s@, *v);
    match style {
        EnumVariation::Rust => {
            let mut line = v.name.clone();
            line.append(" = ");
            line.append(val.as_str());
            line.append(",");
            body.append(line.as_str());
            body.append("\n");
            proof {
                assert(s2.body.drop_last() =~= s@.body);
            }
        },
        EnumVariation::Bitfield => {
            let cname = prefixed_name(d, prepend, &v.name);
            let mut c = String::from_str("pub const ");
            c.append(cname.as_str());
            c.append(": ");
            c.append(d.rust_ty.as_str());
            c.append(" = ");
            c.append(d.rust_ty.as_str());
            c.append("(");
            c.append(val.as_str());
            c.append(");");
            let ghost prev = items@;
            items.push(c);
            proof {
                assert(views(items@) =~= views(prev).push(c@));
            }
        },
        EnumVariation::Consts => {
            let cname = prefixed_name(d, prepend, &v.name);
            let mut c = String::from_str("pub const ");
            c.append(cname.as_str());
            c.append(": ");
            c.append(d.rust_ty.as_str());
            c.append(" = ");
            c.append(val.as_str());
            c.append(";");
            let ghost prev = items@;
            items.push(c);
            proof {
                assert(views(items@) =~= views(prev).push(c@));
            }
        },
        EnumVariation::ModuleConsts => {
            let mut line = String::from_str("pub const ");
            line.append(v.name.as_str());
            line.append(": Type = ");
            line.append(val.as_str());
            line.append(";");
            body.append(line.as_str());
            body.append("\n");
            proof {
                assert(s2.body.drop_last() =~= s@.body);
            }
        },
    }
}

fn push_item(items: &mut Vec<String>, x: String)
    ensures
        views(final(items)@) == views(old(items)@).push(x@),
{
    let ghost prev = items@;
    items.push(x);
    proof {
        assert(views(items@) =~= views(prev).push(x@));
    }
}

fn handle_variant(d: &EnumDecl, style: EnumVariation, prepend: bool, v: &EnumVariant,
    seen: &mut Vec<(VariantValue, String)>, items: &mut Vec<String>, body: &mut String, s: Ghost<EnumState>)
    requires
        seen_matches(old(seen)@, s@.seen),
        views(old(items)@) == s@.items,
        old(body)@ == lines(s@.body),
    ensures
        seen_matches(final(seen)@, step(*d, style, prepend, s@, *v).seen),
        views(final(items)@) == step(*d, style, prepend, s@, *v).items,
        final(body)@ == lines(step(*d, style, prepend, s@, *v).body),
{
    match find_value(seen, v.value) {
        Some(idx) => {
            proof {
                assert(s@.seen.contains_key(v.value));
            }
            if style == EnumVariation::Rust {
                let base = qualified_name(d, !d.named, &v.name);
                let a = alias(d, prepend, &base, &seen[idx].1);
                push_item(items, a);
            } else {
                add_variant(d, style, prepend, v, items, body, s);
            }
        },
        None => {
            proof {
                assert(!s@.seen.contains_key(v.value));
            }
            add_variant(d, style, prepend, v, items, body, s);
            if (style == EnumVariation::Rust && !d.named) || v.force_constification {
                let base = qualified_name(d, true, &v.name);
                let a = alias(d, prepend, &base, &v.name);
                push_item(items, a);
            }
            let ghost prev = seen@;
            seen.push((v.value, v.name.clone()));
            proof {
                let m = step(*d, style, prepend, s@, *v).seen;
                assert(m == s@.seen.insert(v.value, v.name@));
                assert forall|x: VariantValue| m.contains_key(x) <==> exists|i: int| 0 <= i < seen@.len() && #[trigger] seen@[i].0 == x by {
                    if x == v.value {
                        assert(seen@[seen@.len() - 1].0 == x);
                    } else if s@.seen.contains_key(x) {
                        let i = choose|i: int| 0 <= i < prev.len() && #[trigger] prev[i].0 == x;
                        assert(seen@[i].0 == x);
                    } else if exists|i: int| 0 <= i < seen@.len() && #[trigger] seen@[i].0 == x {
                        let i = choose|i: int| 0 <= i < seen@.len() && #[trigger] seen@[i].0 == x;
                        assert(prev[i].0 == x);
                    }
                }
                assert forall|i: int| 0 <= i < seen@.len() implies m[#[trigger] seen@[i].0] == seen@[i].1@ by {
                    if i < prev.len() {
                        assert(seen@[i] == prev[i]);
                    }
                }
            }
        },
    }
}


/// The attributes in front of the enum's item.
pub open spec fn enum_attrs(d: EnumDecl, style: EnumVariation) -> Seq<char> {
    (if style == EnumVariation::Rust && d.variants.len() > 0 {
        "#[repr("@ + repr_name_of(d.repr_signed, d.repr_size) + ")]\n"@
    } else if style == EnumVariation::Bitfield {
        "#[repr(C)]\n"@
    } else {
        Seq::empty()
    }) + (match d.comment {
        Some(c) => "/// "@ + c@ + "\n"@,
        None => Seq::empty(),
    }) + (if style == EnumVariation::Rust || style == EnumVariation::Bitfield {
        "#[derive(Debug, Copy, Clone, PartialEq, Eq, Hash)]\n"@
    } else {
        Seq::empty()
    })
}

/// The bitwise operators of an enum emitted as a newtype.
pub open spec fn bit_op_impls(d: EnumDecl) -> Seq<Seq<char>> {
    let t = d.rust_ty@;
    seq![
        "impl ::std::ops::BitOr<"@ + t + "> for "@ + t
            + " {\ntype Output = Self;\n#[inline]\nfn bitor(self, other: Self) -> Self {\n"@ + d.name@
            + "(self.0 | other.0)\n}\n}"@,
        "impl ::std::ops::BitOrAssign for "@ + t + " {\n#[inline]\nfn bitor_assign(&mut self, rhs: "@ + t
            + ") {\nself.0 |= rhs.0;\n}\n}"@,
        "impl ::std::ops::BitAnd<"@ + t + "> for "@ + t
            + " {\ntype Output = Self;\n#[inline]\nfn bitand(self, other: Self) -> Self {\n"@ + d.name@
            + "(self.0 & other.0)\n}\n}"@,
        "impl ::std::ops::BitAndAssign for "@ + t + " {\n#[inline]\nfn bitand_assign(&mut self, rhs: "@ + t
            + ") {\nself.0 &= rhs.0;\n}\n}"@
    ]
}

/// Everything an enum emits, in order: the constants made while handling
/// its variants, then (for a newtype) its operators, then the item itself.
pub open spec fn enum_output(d: EnumDecl, style: EnumVariation, prepend: bool) -> Seq<Seq<char>> {
    let order = variant_order(d.variants@);
    let st = run(d, style, prepend, order, order.len() as int);
    let repr = repr_name_of(d.repr_signed, d.repr_size);
    match style {
        EnumVariation::Rust => st.items.push(enum_attrs(d, style) + "pub enum "@ + d.name@ + " {\n"@ + lines(st.body) + "}"@),
        EnumVariation::Bitfield => (st.items + bit_op_impls(d)).push(
            enum_attrs(d, style) + "pub struct "@ + d.name@ + "(pub "@ + repr + ");"@),
        EnumVariation::Consts => st.items.push("pub type "@ + d.name@ + " = "@ + repr + ";"@),
        EnumVariation::ModuleConsts => st.items.push("pub mod "@ + d.name@ + " {\npub type Type = "@ + repr + ";\n"@
            + lines(st.body) + "}"@),
    }
}

fn order_pass(vs: &Vec<EnumVariant>, deferred: bool, out: &mut Vec<usize>)
    ensures
        final(out)@.map_values(|i: usize| i as int) == old(out)@.map_values(|i: usize| i as int)
            + order_prefix(vs@, vs.len() as int, deferred),
{
    let ghost start = out@.map_values(|i: usize| i as int);
    let mut k: usize = 0;
    while k < vs.len()
        invariant
            k <= vs.len(),
            out@.map_values(|i: usize| i as int) == start + order_prefix(vs@, k as int, deferred),
        decreases vs.len() - k,
    {
        let w = vs[k].force_constification && k + 1 < vs.len();
        if !vs[k].hidden && w == deferred {
            let ghost prev = out@;
            out.push(k);
            proof {
                assert(out@.map_values(|i: usize| i as int) =~= prev.map_values(|i: usize| i as int).push(k as int));
            }
        }
        k = k + 1;
    }
}

/// Emits an enum under the given style; `prepend` says whether constants
/// carry the enum's name in front.
pub fn codegen_enum(d: &EnumDecl, style: EnumVariation, prepend: bool) -> (r: Vec<String>)
    ensures
        views(r@) == enum_output(*d, style, prepend),
{
    let mut order: Vec<usize> = Vec::new();
    proof {
        assert(order@.map_values(|i: usize| i as int) =~= Seq::<int>::empty());
    }
    order_pass(&d.variants, false, &mut order);
    order_pass(&d.variants, true, &mut order);
    let ghost ord = variant_order(d.variants@);
    proof {
        assert(order@.map_values(|i: usize| i as int) =~= ord);
        order_is_valid(d.variants@);
    }
    let mut seen: Vec<(VariantValue, String)> = Vec::new();
    let mut items: Vec<String> = Vec::new();
    let mut body = String::new();
    let mut k: usize = 0;
    proof {
        assert(views(items@) =~= Seq::<Seq<char>>::empty());
    }
    while k < order.len()
        invariant
            k <= order.len(),
            order@.map_values(|i: usize| i as int) == ord,
            forall|i: int| 0 <= i < ord.len() ==> 0 <= #[trigger] ord[i] < d.variants.len(),
            seen_matches(seen@, run(*d, style, prepend, ord, k as int).seen),
            views(items@) == run(*d, style, prepend, ord, k as int).items,
            body@ == lines(run(*d, style, prepend, ord, k as int).body),
        decreases order.len() - k,
    {
        let idx = order[k];
        proof {
            assert(ord[k as int] == idx as int);
        }
        handle_variant(d, style, prepend, &d.variants[idx], &mut seen, &mut items, &mut body,
            Ghost(run(*d, style, prepend, ord, k as int)));
        k = k + 1;
    }
    let repr = repr_name(d.repr_signed, d.repr_size);
    let mut attrs = String::new();
    if style == EnumVariation::Rust && d.variants.len() > 0 {
        attrs.append("#[repr(");
        attrs.append(repr);
        attrs.append(")]\n");
    } else if style == EnumVariation::Bitfield {
        attrs.append("#[repr(C)]\n");
    }
    match &d.comment {
        Some(c) => {
            attrs.append("/// ");
            attrs.append(c.as_str());
            attrs.append("\n");
        },
        None => {},
    }
    if style == EnumVariation::Rust || style == EnumVariation::Bitfield {
        attrs.append("#[derive(Debug, Copy, Clone, PartialEq, Eq, Hash)]\n");
    }
    proof {
        assert(attrs@ =~= enum_attrs(*d, style));
    }
    let last = match style {
        EnumVariation::Rust => {
            let mut t = attrs;
            t.append("pub enum ");
            t.append(d.name.as_str());
            t.append(" {\n");
            t.append(body.as_str());
            t.append("}");
            t
        },
        EnumVariation::Bitfield => {
            let ops = bit_ops(d);
            let ghost prev = items@;
            let mut j: usize = 0;
            while j < ops.len()
                invariant
                    j <= ops.len(),
                    views(items@) == views(prev) + views(ops@).subrange(0, j as int),
                decreases ops.len() - j,
            {
                push_item(&mut items, ops[j].clone());
                proof {
                    assert(views(ops@).subrange(0, j + 1) =~= views(ops@).subrange(0, j as int).push(ops@[j as int]@));
                }
                j = j + 1;
            }
            proof {
                assert(views(ops@).subrange(0, j as int) =~= views(ops@));
            }
            let mut t = attrs;
            t.append("pub struct ");
            t.append(d.name.as_str());
            t.append("(pub ");
            t.append(repr);
            t.append(");");
            t
        },
        EnumVariation::Consts => {
            let mut t = String::from_str("pub type ");
            t.append(d.name.as_str());
            t.append(" = ");
            t.append(repr);
            t.append(";");
            t
        },
        EnumVariation::ModuleConsts => {
            let mut t = String::from_str("pub mod ");
            t.append(d.name.as_str());
            t.append(" {\npub type Type = ");
            t.append(repr);
            t.append(";\n");
            t.append(body.as_str());
            t.append("}");
            t
        },
    };
    push_item(&mut items, last);
    items
}

fn bit_ops(d: &EnumDecl) -> (r: Vec<String>)
    ensures
        views(r@) == bit_op_impls(*d),
{
    let t = d.rust_ty.as_str();
    let mut a = String::from_str("impl ::std::ops::BitOr<");
    a.append(t);
    a.append("> for ");
    a.append(t);
    a.append(" {\ntype Output = Self;\n#[inline]\nfn bitor(self, other: Self) -> Self {\n");
    a.append(d.name.as_str());
    a.append("(self.0 | other.0)\n}\n}");
    let mut b = String::from_str("impl ::std::ops::BitOrAssign for ");
    b.append(t);
    b.append(" {\n#[inline]\nfn bitor_assign(&mut self, rhs: ");
    b.append(t);
    b.append(") {\nself.0 |= rhs.0;\n}\n}");
    let mut c = String::from_str("impl ::std::ops::BitAnd<");
    c.append(t);
    c.append("> for ");
    c.append(t);
    c.append(" {\ntype Output = Self;\n#[inline]\nfn bitand(self, other: Self) -> Self {\n");
    c.append(d.name.as_str());
    c.append("(self.0 & other.0)\n}\n}");
    let mut e = String::from_str("impl ::std::ops::BitAndAssign for ");
    e.append(t);
    e.append(" {\n#[inline]\nfn bitand_assign(&mut self, rhs: ");
    e.append(t);
    e.append(") {\nself.0 &= rhs.0;\n}\n}");
    let mut r: Vec<String> = Vec::new();
    proof {
        assert(views(r@) =~= Seq::<Seq<char>>::empty());
    }
    push_item(&mut r, a);
    push_item(&mut r, b);
    push_item(&mut r, c);
    push_item(&mut r, e);
    proof {
        assert(views(r@) =~= bit_op_impls(*d));
    }
    r
}

} // verus!
