use vstd::prelude::*;
use crate::text::{dec, decimal, push_decimal};

verus! {

/// Size in bytes of a pointer on the target.
pub const POINTER_SIZE: u64 = 8;

/// Size and alignment of a type, in bytes.
#[derive(Clone, Copy, Debug, PartialEq, Eq, Structural)]
pub struct Layout {
    pub size: u64,
    pub align: u64,
}

impl Layout {
    pub fn new(size: u64, align: u64) -> (r: Layout)
        ensures
            r.size == size,
            r.align == align,
    {
        Layout { size, align }
    }

    /// A layout of the given size whose alignment is the largest power of two
    /// not above the pointer size that divides the size.
    pub fn for_size(size: u64) -> (r: Layout)
        ensures
            r.size == size,
            r.align == for_size_align(size),
    {
        let align: u64 = if size % 8 == 0 { 8 } else if size % 4 == 0 { 4 } else if size % 2 == 0 { 2 } else { 1 };
        Layout { size, align }
    }
}

pub open spec fn for_size_align(size: u64) -> u64 {
    if size % 8 == 0 { 8 } else if size % 4 == 0 { 4 } else if size % 2 == 0 { 2 } else { 1 }
}

/// The unsigned integer that an opaque blob of this alignment is made of.
pub open spec fn blob_elem(align: u64) -> Option<Seq<char>> {
    if align == 8 { Some("u64"@) }
    else if align == 4 { Some("u32"@) }
    else if align == 2 { Some("u16"@) }
    else if align == 1 { Some("u8"@) }
    else { None }
}

/// The type text of an opaque byte blob of the given layout: an array of
/// the unsigned integer matching the alignment (bytes when the alignment has
/// no such integer), or that integer alone when one element fills it.
pub open spec fn blob_text(l: Layout) -> Seq<char> {
    let (elem, len) = match blob_elem(l.align) {
        Some(e) => (e, l.size / l.align),
        None => ("u8"@, l.size),
    };
    if len == 1 { elem } else { "["@ + elem + "; "@ + dec(len as nat) + "usize]"@ }
}

fn blob_elem_exec(align: u64) -> (r: Option<&'static str>)
    ensures
        r.is_some() == blob_elem(align).is_some(),
        r.is_some() ==> r.unwrap()@ == blob_elem(align).unwrap(),
{
    if align == 8 { Some("u64") }
    else if align == 4 { Some("u32") }
    else if align == 2 { Some("u16") }
    else if align == 1 { Some("u8") }
    else { None }
}

/// The type of an opaque blob with the given layout.
pub fn blob(l: Layout) -> (r: String)
    ensures
        r@ == blob_text(l),
{
    let (elem, len) = match blob_elem_exec(l.align) {
        Some(e) => (e, l.size / l.align),
        None => ("u8", l.size),
    };
    if len == 1 {
        String::from_str(elem)
    } else {
        let mut s = String::from_str("[");
        s.append(elem);
        s.append("; ");
        push_decimal(&mut s, len);
        s.append("usize]");
        s
    }
}


/// Addition that stops at the largest `u64`.
pub open spec fn sat_add(a: u64, b: u64) -> u64 {
    if a as int + b as int > u64::MAX as int { u64::MAX } else { (a + b) as u64 }
}

pub fn saturating_add(a: u64, b: u64) -> (r: u64)
    ensures
        r == sat_add(a, b),
{
    if a > u64::MAX - b { u64::MAX } else { a + b }
}

/// `off` rounded up to a multiple of `align` (unchanged for alignment 0).
pub open spec fn align_up(off: u64, align: u64) -> u64 {
    if align == 0 || off % align == 0 { off } else { sat_add(off, (align - off % align) as u64) }
}

pub fn align_to(off: u64, align: u64) -> (r: u64)
    ensures
        r == align_up(off, align),
        r >= off,
{
    if align == 0 || off % align == 0 { off } else { saturating_add(off, align - off % align) }
}

pub open spec fn max_u64(a: u64, b: u64) -> u64 {
    if a >= b { a } else { b }
}

pub open spec fn min_u64(a: u64, b: u64) -> u64 {
    if a <= b { a } else { b }
}

/// Follows the fields of a composite in emission order and decides where
/// padding is owed so that the emitted record keeps the C layout.
#[derive(Clone, Copy, Debug, PartialEq, Eq, Structural)]
pub struct StructLayoutTracker {
    /// The byte just past what has been laid out so far.
    pub latest_offset: u64,
    pub padding_count: u64,
    pub latest_field_layout: Option<Layout>,
    pub max_field_align: u64,
    pub last_field_was_bitfield: bool,
    pub packed: bool,
}

/// Bytes from the current offset up to the next multiple of `l`'s alignment.
pub open spec fn padding_bytes(st: StructLayoutTracker, l: Layout) -> u64 {
    (align_up(st.latest_offset, l.align) - st.latest_offset) as u64
}

/// Before a new member: whether it shares the storage left in the last
/// bitfield unit; if not, the offset moves past the last member's
/// alignment.
pub open spec fn align_to_latest_field(st: StructLayoutTracker, new_l: Layout) -> (StructLayoutTracker, bool) {
    if st.packed {
        (st, false)
    } else {
        match st.latest_field_layout {
            None => (st, false),
            Some(l) => {
                let a: u64 = if l.align == 0 { 1 } else { l.align };
                if st.last_field_was_bitfield && new_l.align <= l.size % a && new_l.size <= l.size % a {
                    (st, true)
                } else {
                    (StructLayoutTracker { latest_offset: sat_add(st.latest_offset, padding_bytes(st, l)), ..st }, false)
                }
            },
        }
    }
}

/// The text of the `n`th padding field.
pub open spec fn padding_field_text(n: u64, l: Layout) -> Seq<char> {
    "pub __bindgen_padding_"@ + dec(n as nat) + ": "@ + blob_text(l) + ","@
}

/// The state after a padding field of layout `l`.
pub open spec fn after_padding_field(st: StructLayoutTracker, l: Layout) -> StructLayoutTracker {
    StructLayoutTracker {
        padding_count: sat_add(st.padding_count, 1),
        max_field_align: max_u64(st.max_field_align, l.align),
        ..st
    }
}

/// The padding owed in front of a field of layout `fl` whose offset the C
/// declaration gives in bits (when it does), and the state once the field
/// is laid out. No padding is made in a packed composite.
pub open spec fn pad_field_spec(st: StructLayoutTracker, fl: Layout, offset_bits: Option<u64>) -> (StructLayoutTracker, Option<Layout>) {
    let (st1, merge) = align_to_latest_field(st, fl);
    let pb: u64 = match offset_bits {
        Some(o) => if o / 8 > st1.latest_offset { (o / 8 - st1.latest_offset) as u64 }
            else if merge || fl.align == 0 { 0 } else { padding_bytes(st1, fl) },
        None => if merge || fl.align == 0 { 0 } else { padding_bytes(st1, fl) },
    };
    let pad: Option<Layout> = if st.packed {
        None
    } else if (pb >= fl.align || fl.align > POINTER_SIZE) && pb != 0 {
        Some(Layout { size: pb, align: min_u64(fl.align, POINTER_SIZE) })
    } else {
        None
    };
    let off = if st.packed { st1.latest_offset } else { sat_add(st1.latest_offset, pb) };
    let st2 = StructLayoutTracker {
        latest_offset: sat_add(off, fl.size),
        latest_field_layout: Some(fl),
        max_field_align: max_u64(st1.max_field_align, fl.align),
        last_field_was_bitfield: false,
        ..st1
    };
    match pad {
        Some(l) => (after_padding_field(st2, l), pad),
        None => (st2, pad),
    }
}

/// The offset at which the field just laid out starts.
pub open spec fn field_start(st: StructLayoutTracker, fl: Layout, offset_bits: Option<u64>) -> u64 {
    let (st1, merge) = align_to_latest_field(st, fl);
    let pb: u64 = match offset_bits {
        Some(o) => if o / 8 > st1.latest_offset { (o / 8 - st1.latest_offset) as u64 }
            else if merge || fl.align == 0 { 0 } else { padding_bytes(st1, fl) },
        None => if merge || fl.align == 0 { 0 } else { padding_bytes(st1, fl) },
    };
    if st.packed { st1.latest_offset } else { sat_add(st1.latest_offset, pb) }
}

pub open spec fn saw_vtable_spec(st: StructLayoutTracker) -> StructLayoutTracker {
    StructLayoutTracker {
        latest_offset: sat_add(st.latest_offset, POINTER_SIZE),
        latest_field_layout: Some(Layout { size: POINTER_SIZE, align: POINTER_SIZE }),
        max_field_align: POINTER_SIZE,
        ..st
    }
}

/// A member laid out at the next multiple of its alignment: a base or the
/// storage of a union.
pub open spec fn saw_aligned_spec(st: StructLayoutTracker, l: Layout) -> StructLayoutTracker {
    let st1 = align_to_latest_field(st, l).0;
    StructLayoutTracker {
        latest_offset: sat_add(sat_add(st1.latest_offset, padding_bytes(st1, l)), l.size),
        latest_field_layout: Some(l),
        max_field_align: max_u64(st1.max_field_align, l.align),
        ..st1
    }
}

/// A bitfield unit: laid out right after the last member. It does not
/// raise the alignment the fields are known to give, so the composite may
/// still need an alignment filler.
pub open spec fn saw_bitfield_unit_spec(st: StructLayoutTracker, l: Layout) -> StructLayoutTracker {
    let st1 = align_to_latest_field(st, l).0;
    StructLayoutTracker {
        latest_offset: sat_add(st1.latest_offset, l.size),
        latest_field_layout: Some(l),
        last_field_was_bitfield: true,
        ..st1
    }
}

/// The padding owed at the end of a composite of layout `l`.
pub open spec fn tail_padding(st: StructLayoutTracker, l: Layout) -> Option<Layout> {
    if l.size < st.latest_offset {
        None
    } else {
        let pb = (l.size - st.latest_offset) as u64;
        let after_bitfield = st.last_field_was_bitfield && match st.latest_field_layout {
            Some(ll) => pb >= ll.align,
            None => false,
        };
        if pb > 0 && (pb >= l.align || after_bitfield || l.align > POINTER_SIZE) {
            Some(if st.packed {
                Layout { size: pb, align: 1 }
            } else if st.last_field_was_bitfield || l.align > POINTER_SIZE {
                Layout { size: pb, align: for_size_align(pb) }
            } else {
                Layout { size: pb, align: l.align }
            })
        } else {
            None
        }
    }
}

/// The zero-length filler that raises the record's alignment to `l`'s when
/// its fields do not reach it.
pub open spec fn align_filler(st: StructLayoutTracker, l: Layout) -> Option<Seq<char>> {
    if st.max_field_align < l.align && l.align <= POINTER_SIZE {
        Some("pub __bindgen_align: "@ + blob_text(Layout { size: 0, align: l.align }) + ","@)
    } else {
        None
    }
}

impl StructLayoutTracker {
    pub fn new(packed: bool) -> (r: StructLayoutTracker)
        ensures
            r == (StructLayoutTracker {
                latest_offset: 0,
                padding_count: 0,
                latest_field_layout: None,
                max_field_align: 0,
                last_field_was_bitfield: false,
                packed,
            }),
    {
        StructLayoutTracker {
            latest_offset: 0,
            padding_count: 0,
            latest_field_layout: None,
            max_field_align: 0,
            last_field_was_bitfield: false,
            packed,
        }
    }

    fn align_to_latest(&mut self, new_l: Layout) -> (merge: bool)
        ensures
            (*final(self), merge) == align_to_latest_field(*old(self), new_l),
    {
        if self.packed {
            return false;
        }
        match self.latest_field_layout {
            None => false,
            Some(l) => {
                let a: u64 = if l.align == 0 { 1 } else { l.align };
                if self.last_field_was_bitfield && new_l.align <= l.size % a && new_l.size <= l.size % a {
                    true
                } else {
                    let pb = align_to(self.latest_offset, l.align) - self.latest_offset;
                    self.latest_offset = saturating_add(self.latest_offset, pb);
                    false
                }
            },
        }
    }

    fn padding_field(&mut self, l: Layout) -> (r: String)
        ensures
            *final(self) == after_padding_field(*old(self), l),
            r@ == padding_field_text(old(self).padding_count, l),
    {
        let mut s = String::from_str("pub __bindgen_padding_");
        push_decimal(&mut s, self.padding_count);
        s.append(": ");
        let b = blob(l);
        s.append(b.as_str());
        s.append(",");
        self.padding_count = saturating_add(self.padding_count, 1);
        if l.align > self.max_field_align {
            self.max_field_align = l.align;
        }
        s
    }

    /// Lays out a field; returns the padding field owed in front of it.
    pub fn pad_field(&mut self, fl: Layout, offset_bits: Option<u64>) -> (r: Option<String>)
        ensures
            *final(self) == pad_field_spec(*old(self), fl, offset_bits).0,
            r.is_some() == pad_field_spec(*old(self), fl, offset_bits).1.is_some(),
            r.is_some() ==> r.unwrap()@ == padding_field_text(
                old(self).padding_count, pad_field_spec(*old(self), fl, offset_bits).1.unwrap()),
    {
        let packed = self.packed;
        let merge = self.align_to_latest(fl);
        let pb: u64 = match offset_bits {
            Some(o) => if o / 8 > self.latest_offset { o / 8 - self.latest_offset }
                else if merge || fl.align == 0 { 0 } else { align_to(self.latest_offset, fl.align) - self.latest_offset },
            None => if merge || fl.align == 0 { 0 } else { align_to(self.latest_offset, fl.align) - self.latest_offset },
        };
        let pad: Option<Layout> = if packed {
            None
        } else if (pb >= fl.align || fl.align > POINTER_SIZE) && pb != 0 {
            Some(Layout { size: pb, align: if fl.align <= POINTER_SIZE { fl.align } else { POINTER_SIZE } })
        } else {
            None
        };
        if !packed {
            self.latest_offset = saturating_add(self.latest_offset, pb);
        }
        self.latest_offset = saturating_add(self.latest_offset, fl.size);
        self.latest_field_layout = Some(fl);
        if fl.align > self.max_field_align {
            self.max_field_align = fl.align;
        }
        self.last_field_was_bitfield = false;
        match pad {
            Some(l) => {
                let ghost before = self.padding_count;
                let t = self.padding_field(l);
                proof {
                    assert(before == old(self).padding_count);
                }
                Some(t)
            },
            None => None,
        }
    }

    pub fn saw_vtable(&mut self)
        ensures
            *final(self) == saw_vtable_spec(*old(self)),
    {
        self.latest_offset = saturating_add(self.latest_offset, POINTER_SIZE);
        self.latest_field_layout = Some(Layout { size: POINTER_SIZE, align: POINTER_SIZE });
        self.max_field_align = POINTER_SIZE;
    }

    /// A base class, or the storage of a union, of layout `l`.
    pub fn saw_aligned(&mut self, l: Layout)
        ensures
            *final(self) == saw_aligned_spec(*old(self), l),
    {
        let _ = self.align_to_latest(l);
        let pb = align_to(self.latest_offset, l.align) - self.latest_offset;
        self.latest_offset = saturating_add(saturating_add(self.latest_offset, pb), l.size);
        self.latest_field_layout = Some(l);
        if l.align > self.max_field_align {
            self.max_field_align = l.align;
        }
    }

    pub fn saw_bitfield_unit(&mut self, l: Layout)
        ensures
            *final(self) == saw_bitfield_unit_spec(*old(self), l),
    {
        let _ = self.align_to_latest(l);
        self.latest_offset = saturating_add(self.latest_offset, l.size);
        self.latest_field_layout = Some(l);
        self.last_field_was_bitfield = true;
    }

    /// The padding field owed at the end of a composite of layout `l`; when
    /// one is made, the record reaches `l`'s size.
    pub fn pad_struct(&mut self, l: Layout) -> (r: Option<String>)
        ensures
            match tail_padding(*old(self), l) {
                Some(pl) => {
                    &&& r.is_some()
                    &&& r.unwrap()@ == padding_field_text(old(self).padding_count, pl)
                    &&& *final(self) == after_padding_field(*old(self), pl)
                    &&& old(self).latest_offset + pl.size == l.size
                },
                None => r.is_none() && *final(self) == *old(self),
            },
    {
        if l.size < self.latest_offset {
            return None;
        }
        let pb = l.size - self.latest_offset;
        let after_bitfield = self.last_field_was_bitfield && match self.latest_field_layout {
            Some(ll) => pb >= ll.align,
            None => false,
        };
        if pb > 0 && (pb >= l.align || after_bitfield || l.align > POINTER_SIZE) {
            let pl = if self.packed {
                Layout { size: pb, align: 1 }
            } else if self.last_field_was_bitfield || l.align > POINTER_SIZE {
                Layout::for_size(pb)
            } else {
                Layout { size: pb, align: l.align }
            };
            Some(self.padding_field(pl))
        } else {
            None
        }
    }

    /// The alignment filler, when the fields do not reach `l`'s alignment.
    pub fn align_struct(&self, l: Layout) -> (r: Option<String>)
        ensures
            r.is_some() == align_filler(*self, l).is_some(),
            r.is_some() ==> r.unwrap()@ == align_filler(*self, l).unwrap(),
    {
        if self.max_field_align < l.align && l.align <= POINTER_SIZE {
            let mut s = String::from_str("pub __bindgen_align: ");
            let b = blob(Layout { size: 0, align: l.align });
            s.append(b.as_str());
            s.append(",");
            Some(s)
        } else {
            None
        }
    }
}


/// A field whose offset in the C declaration is not before what has been
/// laid out, and is a multiple of the field's alignment, is placed exactly
/// at that offset: the padding in front of it covers the gap.
pub proof fn field_lands_at_offset(st: StructLayoutTracker, fl: Layout, offset_bits: u64)
    requires
        !st.packed,
        offset_bits / 8 >= align_to_latest_field(st, fl).0.latest_offset,
        fl.align == 0 || (offset_bits / 8) % fl.align == 0,
    ensures
        field_start(st, fl, Some(offset_bits)) == offset_bits / 8,
{
    let st1 = align_to_latest_field(st, fl).0;
    if offset_bits / 8 == st1.latest_offset {
        assert(align_up(st1.latest_offset, fl.align) == st1.latest_offset);
        assert(padding_bytes(st1, fl) == 0);
    }
}

} // verus!
