use vstd::prelude::*;
use crate::bitfield::views;
use crate::tokens::{tokens_of, tokens_text};
use crate::types::{join, join_strings};

verus! {

/// `n` copies of `super`.
pub open spec fn supers(n: nat) -> Seq<Seq<char>>
    decreases n,
{
    if n == 0 { Seq::empty() } else { supers((n - 1) as nat).push("super"@) }
}

/// The path from a scope at codegen depth `depth` up to the crate's top:
/// `self`, then one `super` per level when namespaces are emitted as
/// nested scopes.
pub open spec fn top_level_path_text(namespaces: bool, depth: nat) -> Seq<Seq<char>> {
    seq!["self"@] + if namespaces { supers(depth) } else { Seq::empty() }
}

pub fn top_level_path(namespaces: bool, depth: u64) -> (r: Vec<String>)
    ensures
        views(r@) == top_level_path_text(namespaces, depth as nat),
{
    let mut path: Vec<String> = Vec::new();
    path.push(String::from_str("self"));
    proof {
        assert(views(path@) =~= seq!["self"@]);
    }
    if namespaces {
        let mut i: u64 = 0;
        while i < depth
            invariant
                i <= depth,
                views(path@) == seq!["self"@] + supers(i as nat),
            decreases depth - i,
        {
            let ghost prev = path@;
            path.push(String::from_str("super"));
            proof {
                assert(views(path@) =~= views(prev).push("super"@));
                assert(supers((i + 1) as nat) == supers(i as nat).push("super"@));
                assert(seq!["self"@] + supers((i + 1) as nat) =~= (seq!["self"@] + supers(i as nat)).push("super"@));
            }
            i = i + 1;
        }
    } else {
        proof {
            assert(seq!["self"@] + Seq::<Seq<char>>::empty() =~= seq!["self"@]);
        }
    }
    path
}

/// The import that opens a nested scope at depth `depth`: it reaches the
/// root module through exactly `depth` levels of `super`.
pub open spec fn root_import_text(depth: nat, root: Seq<char>) -> Seq<char> {
    "#[allow(unused_imports)]\nuse "@ + join(top_level_path_text(true, depth).push(root), "::"@) + ";"@
}

pub fn root_import(depth: u64, root_name: &String) -> (r: quote::Tokens)
    ensures
        tokens_text(r) == root_import_text(depth as nat, root_name@),
{
    let mut path = top_level_path(true, depth);
    let ghost prev = path@;
    path.push(root_name.clone());
    proof {
        assert(views(path@) =~= views(prev).push(root_name@));
    }
    let mut s = String::from_str("#[allow(unused_imports)]\nuse ");
    let j = join_strings(&path, "::");
    s.append(j.as_str());
    s.append(";");
    tokens_of(s.as_str())
}

/// The text of a list of token buffers.
pub open spec fn texts(v: Seq<quote::Tokens>) -> Seq<Seq<char>> {
    v.map_values(|t: quote::Tokens| tokens_text(t))
}

fn prepend(result: &mut Vec<quote::Tokens>, items: Vec<quote::Tokens>)
    ensures
        texts(final(result)@) == texts(items@) + texts(old(result)@),
{
    let mut out = items;
    let ghost first = out@;
    out.append(result);
    proof {
        assert(texts(out@) =~= texts(first) + texts(old(result)@));
    }
    *result = out;
}


/// The helper type through which the fields of a union that is not a
/// language union are reached: a zero-sized field, default-constructible,
/// whose clone is a fresh default.
pub open spec fn union_helper_items() -> Seq<Seq<char>> {
    seq![
        "#[repr(C)]\npub struct __BindgenUnionField<T>(::std::marker::PhantomData<T>);"@,
        "impl<T> __BindgenUnionField<T> {\n#[inline]\npub fn new() -> Self {\n__BindgenUnionField(::std::marker::PhantomData)\n}\n#[inline]\npub unsafe fn as_ref(&self) -> &T {\n::std::mem::transmute(self)\n}\n#[inline]\npub unsafe fn as_mut(&mut self) -> &mut T {\n::std::mem::transmute(self)\n}\n}"@,
        "impl<T> ::std::default::Default for __BindgenUnionField<T> {\n#[inline]\nfn default() -> Self {\nSelf::new()\n}\n}"@,
        "impl<T> ::std::clone::Clone for __BindgenUnionField<T> {\n#[inline]\nfn clone(&self) -> Self {\nSelf::new()\n}\n}"@,
        "impl<T> ::std::marker::Copy for __BindgenUnionField<T> {}"@,
        "impl<T> ::std::fmt::Debug for __BindgenUnionField<T> {\nfn fmt(&self, fmt: &mut ::std::fmt::Formatter) -> ::std::fmt::Result {\nfmt.write_str(\"__BindgenUnionField\")\n}\n}"@,
        "impl<T> ::std::hash::Hash for __BindgenUnionField<T> {\nfn hash<H: ::std::hash::Hasher>(&self, _state: &mut H) {}\n}"@,
        "impl<T> ::std::cmp::PartialEq for __BindgenUnionField<T> {\nfn eq(&self, _other: &__BindgenUnionField<T>) -> bool {\ntrue\n}\n}"@,
        "impl<T> ::std::cmp::Eq for __BindgenUnionField<T> {}"@
    ]
}

/// Puts the union-field helper in front of the items.
pub fn prepend_union_types(result: &mut Vec<quote::Tokens>)
    ensures
        texts(final(result)@) == union_helper_items() + texts(old(result)@),
{
    let mut v: Vec<quote::Tokens> = Vec::new();
    v.push(tokens_of("#[repr(C)]\npub struct __BindgenUnionField<T>(::std::marker::PhantomData<T>);"));
    v.push(tokens_of("impl<T> __BindgenUnionField<T> {\n#[inline]\npub fn new() -> Self {\n__BindgenUnionField(::std::marker::PhantomData)\n}\n#[inline]\npub unsafe fn as_ref(&self) -> &T {\n::std::mem::transmute(self)\n}\n#[inline]\npub unsafe fn as_mut(&mut self) -> &mut T {\n::std::mem::transmute(self)\n}\n}"));
    v.push(tokens_of("impl<T> ::std::default::Default for __BindgenUnionField<T> {\n#[inline]\nfn default() -> Self {\nSelf::new()\n}\n}"));
    v.push(tokens_of("impl<T> ::std::clone::Clone for __BindgenUnionField<T> {\n#[inline]\nfn clone(&self) -> Self {\nSelf::new()\n}\n}"));
    v.push(tokens_of("impl<T> ::std::marker::Copy for __BindgenUnionField<T> {}"));
    v.push(tokens_of("impl<T> ::std::fmt::Debug for __BindgenUnionField<T> {\nfn fmt(&self, fmt: &mut ::std::fmt::Formatter) -> ::std::fmt::Result {\nfmt.write_str(\"__BindgenUnionField\")\n}\n}"));
    v.push(tokens_of("impl<T> ::std::hash::Hash for __BindgenUnionField<T> {\nfn hash<H: ::std::hash::Hasher>(&self, _state: &mut H) {}\n}"));
    v.push(tokens_of("impl<T> ::std::cmp::PartialEq for __BindgenUnionField<T> {\nfn eq(&self, _other: &__BindgenUnionField<T>) -> bool {\ntrue\n}\n}"));
    v.push(tokens_of("impl<T> ::std::cmp::Eq for __BindgenUnionField<T> {}"));
    proof {
        assert(texts(v@) =~= union_helper_items());
    }
    prepend(result, v);
}

/// The helper type of a trailing flexible array.
pub open spec fn incomplete_array_helper_items() -> Seq<Seq<char>> {
    seq![
        "#[repr(C)]\n#[derive(Default)]\npub struct __IncompleteArrayField<T>(::std::marker::PhantomData<T>);"@,
        "impl<T> __IncompleteArrayField<T> {\n#[inline]\npub fn new() -> Self {\n__IncompleteArrayField(::std::marker::PhantomData)\n}\n#[inline]\npub unsafe fn as_ptr(&self) -> *const T {\n::std::mem::transmute(self)\n}\n#[inline]\npub unsafe fn as_mut_ptr(&mut self) -> *mut T {\n::std::mem::transmute(self)\n}\n#[inline]\npub unsafe fn as_slice(&self, len: usize) -> &[T] {\n::std::slice::from_raw_parts(self.as_ptr(), len)\n}\n#[inline]\npub unsafe fn as_mut_slice(&mut self, len: usize) -> &mut [T] {\n::std::slice::from_raw_parts_mut(self.as_mut_ptr(), len)\n}\n}"@,
        "impl<T> ::std::fmt::Debug for __IncompleteArrayField<T> {\nfn fmt(&self, fmt: &mut ::std::fmt::Formatter) -> ::std::fmt::Result {\nfmt.write_str(\"__IncompleteArrayField\")\n}\n}"@,
        "impl<T> ::std::clone::Clone for __IncompleteArrayField<T> {\n#[inline]\nfn clone(&self) -> Self {\nSelf::new()\n}\n}"@,
        "impl<T> ::std::marker::Copy for __IncompleteArrayField<T> {}"@
    ]
}

/// Puts the flexible-array helper in front of the items.
pub fn prepend_incomplete_array_types(result: &mut Vec<quote::Tokens>)
    ensures
        texts(final(result)@) == incomplete_array_helper_items() + texts(old(result)@),
{
    let mut v: Vec<quote::Tokens> = Vec::new();
    v.push(tokens_of("#[repr(C)]\n#[derive(Default)]\npub struct __IncompleteArrayField<T>(::std::marker::PhantomData<T>);"));
    v.push(tokens_of("impl<T> __IncompleteArrayField<T> {\n#[inline]\npub fn new() -> Self {\n__IncompleteArrayField(::std::marker::PhantomData)\n}\n#[inline]\npub unsafe fn as_ptr(&self) -> *const T {\n::std::mem::transmute(self)\n}\n#[inline]\npub unsafe fn as_mut_ptr(&mut self) -> *mut T {\n::std::mem::transmute(self)\n}\n#[inline]\npub unsafe fn as_slice(&self, len: usize) -> &[T] {\n::std::slice::from_raw_parts(self.as_ptr(), len)\n}\n#[inline]\npub unsafe fn as_mut_slice(&mut self, len: usize) -> &mut [T] {\n::std::slice::from_raw_parts_mut(self.as_mut_ptr(), len)\n}\n}"));
    v.push(tokens_of("impl<T> ::std::fmt::Debug for __IncompleteArrayField<T> {\nfn fmt(&self, fmt: &mut ::std::fmt::Formatter) -> ::std::fmt::Result {\nfmt.write_str(\"__IncompleteArrayField\")\n}\n}"));
    v.push(tokens_of("impl<T> ::std::clone::Clone for __IncompleteArrayField<T> {\n#[inline]\nfn clone(&self) -> Self {\nSelf::new()\n}\n}"));
    v.push(tokens_of("impl<T> ::std::marker::Copy for __IncompleteArrayField<T> {}"));
    proof {
        assert(texts(v@) =~= incomplete_array_helper_items());
    }
    prepend(result, v);
}

/// The helper type of a complex number.
pub open spec fn complex_helper_items() -> Seq<Seq<char>> {
    seq![
        "#[derive(PartialEq, Copy, Clone, Hash, Debug, Default)]\n#[repr(C)]\npub struct __BindgenComplex<T> {\npub re: T,\npub im: T\n}"@
    ]
}

/// Puts the complex-number helper in front of the items.
pub fn prepend_complex_type(result: &mut Vec<quote::Tokens>)
    ensures
        texts(final(result)@) == complex_helper_items() + texts(old(result)@),
{
    let mut v: Vec<quote::Tokens> = Vec::new();
    v.push(tokens_of("#[derive(PartialEq, Copy, Clone, Hash, Debug, Default)]\n#[repr(C)]\npub struct __BindgenComplex<T> {\npub re: T,\npub im: T\n}"));
    proof {
        assert(texts(v@) =~= complex_helper_items());
    }
    prepend(result, v);
}

/// The Objective-C prelude: the runtime crate, then `id`.
pub open spec fn objc_header_items(extern_crate: bool) -> Seq<Seq<char>> {
    seq![if extern_crate { "#[macro_use]\nextern crate objc;"@ } else { "use objc;"@ }, "#[allow(non_camel_case_types)]\npub type id = *mut objc::runtime::Object;"@]
}

/// Puts the Objective-C prelude in front of the items.
pub fn prepend_objc_header(extern_crate: bool, result: &mut Vec<quote::Tokens>)
    ensures
        texts(final(result)@) == objc_header_items(extern_crate) + texts(old(result)@),
{
    let mut v: Vec<quote::Tokens> = Vec::new();
    if extern_crate {
        v.push(tokens_of("#[macro_use]\nextern crate objc;"));
    } else {
        v.push(tokens_of("use objc;"));
    }
    v.push(tokens_of("#[allow(non_camel_case_types)]\npub type id = *mut objc::runtime::Object;"));
    proof {
        assert(texts(v@) =~= objc_header_items(extern_crate));
    }
    prepend(result, v);
}


/// The import at the head of a scope at depth `d` climbs exactly `d`
/// levels: `self`, then `d` times `super`.
pub proof fn root_path_depth(d: nat)
    ensures
        top_level_path_text(true, d).len() == d + 1,
        top_level_path_text(true, d)[0] == "self"@,
        forall|i: int| 1 <= i <= d ==> #[trigger] top_level_path_text(true, d)[i] == "super"@,
    decreases d,
{
    if d > 0 {
        root_path_depth((d - 1) as nat);
        let prev = top_level_path_text(true, (d - 1) as nat);
        assert(top_level_path_text(true, d) =~= prev.push("super"@));
        assert forall|i: int| 1 <= i <= d implies #[trigger] top_level_path_text(true, d)[i] == "super"@ by {
            if i < d {
                assert(top_level_path_text(true, d)[i] == prev[i]);
            }
        }
    } else {
        assert(supers(0) =~= Seq::<Seq<char>>::empty());
    }
}

} // verus!
