use vstd::prelude::*;
use crate::tokens::tokens_text;

verus! {

/// What one emission pass accumulates: the emitted items, the flags that
/// ask for helper types at the root, and the sets that keep items and
/// symbols from being emitted twice.
pub struct CodegenResult {
    pub items: Vec<quote::Tokens>,
    /// A counter for names that nothing refers to, such as test functions.
    pub codegen_id: u64,
    pub saw_union: bool,
    pub saw_bindgen_union: bool,
    pub saw_incomplete_array: bool,
    pub saw_objc: bool,
    pub items_seen: Vec<u64>,
    pub functions_seen: Vec<String>,
    pub vars_seen: Vec<String>,
    /// For each canonical function name, how many overloads were emitted.
    pub overload_counters: NameCounts,
}

/// How many times each name was handed out.
pub struct NameCounts {
    pub entries: Vec<(String, u32)>,
}

pub open spec fn contains_text(v: Seq<String>, s: Seq<char>) -> bool {
    exists|i: int| 0 <= i < v.len() && #[trigger] v[i]@ == s
}

impl CodegenResult {
    /// The text of each emitted item, in order.
    pub open spec fn items_text(&self) -> Seq<Seq<char>> {
        self.items@.map_values(|t: quote::Tokens| tokens_text(t))
    }

    pub open spec fn seen_item(&self, id: u64) -> bool {
        self.items_seen@.contains(id)
    }

    pub open spec fn seen_fn(&self, name: Seq<char>) -> bool {
        contains_text(self.functions_seen@, name)
    }

    pub open spec fn seen_variable(&self, name: Seq<char>) -> bool {
        contains_text(self.vars_seen@, name)
    }

    /// How many overloads of `name` were emitted.
    pub open spec fn overloads(&self, name: Seq<char>) -> nat {
        self.overload_counters.count(name)
    }

    pub open spec fn wf(&self) -> bool {
        self.overload_counters.wf()
    }

    /// Nothing emitted and nothing seen; the counter starts at `codegen_id`.
    pub fn new(codegen_id: u64) -> (r: CodegenResult)
        ensures
            r.wf(),
            r.items@.len() == 0,
            r.codegen_id == codegen_id,
            !r.saw_union && !r.saw_bindgen_union && !r.saw_incomplete_array && !r.saw_objc,
            r.items_seen@.len() == 0,
            r.functions_seen@.len() == 0,
            r.vars_seen@.len() == 0,
            r.overload_counters.entries@.len() == 0,
    {
        CodegenResult {
            items: Vec::new(),
            codegen_id,
            saw_union: false,
            saw_bindgen_union: false,
            saw_incomplete_array: false,
            saw_objc: false,
            items_seen: Vec::new(),
            functions_seen: Vec::new(),
            vars_seen: Vec::new(),
            overload_counters: NameCounts::new(),
        }
    }

    pub fn saw_union(&mut self)
        ensures
            *final(self) == (CodegenResult { saw_union: true, ..*old(self) }),
    {
        self.saw_union = true;
    }

    /// A union emitted through the helper union-field type: a union was seen
    /// too.
    pub fn saw_bindgen_union(&mut self)
        ensures
            *final(self) == (CodegenResult { saw_union: true, saw_bindgen_union: true, ..*old(self) }),
    {
        self.saw_union();
        self.saw_bindgen_union = true;
    }

    pub fn saw_incomplete_array(&mut self)
        ensures
            *final(self) == (CodegenResult { saw_incomplete_array: true, ..*old(self) }),
    {
        self.saw_incomplete_array = true;
    }

    pub fn saw_objc(&mut self)
        ensures
            *final(self) == (CodegenResult { saw_objc: true, ..*old(self) }),
    {
        self.saw_objc = true;
    }

    pub fn seen(&self, id: u64) -> (r: bool)
        ensures
            r == self.seen_item(id),
    {
        let mut i: usize = 0;
        while i < self.items_seen.len()
            invariant
                i <= self.items_seen.len(),
                forall|k: int| 0 <= k < i ==> self.items_seen@[k] != id,
            decreases self.items_seen.len() - i,
        {
            if self.items_seen[i] == id {
                return true;
            }
            i = i + 1;
        }
        false
    }

    pub fn set_seen(&mut self, id: u64)
        ensures
            final(self).items_seen@ == old(self).items_seen@.push(id),
            *final(self) == (CodegenResult { items_seen: final(self).items_seen, ..*old(self) }),
    {
        self.items_seen.push(id);
    }

    pub fn seen_function(&self, name: &String) -> (r: bool)
        ensures
            r == self.seen_fn(name@),
    {
        find_text(&self.functions_seen, name)
    }

    pub fn saw_function(&mut self, name: &String)
        ensures
            final(self).functions_seen@.len() == old(self).functions_seen@.len() + 1,
            final(self).functions_seen@.drop_last() == old(self).functions_seen@,
            final(self).functions_seen@.last()@ == name@,
            *final(self) == (CodegenResult { functions_seen: final(self).functions_seen, ..*old(self) }),
    {
        let n = name.clone();
        self.functions_seen.push(n);
        proof {
            assert(self.functions_seen@.drop_last() =~= old(self).functions_seen@);
        }
    }

    pub fn seen_var(&self, name: &String) -> (r: bool)
        ensures
            r == self.seen_variable(name@),
    {
        find_text(&self.vars_seen, name)
    }

    pub fn saw_var(&mut self, name: &String)
        ensures
            final(self).vars_seen@.len() == old(self).vars_seen@.len() + 1,
            final(self).vars_seen@.drop_last() == old(self).vars_seen@,
            final(self).vars_seen@.last()@ == name@,
            *final(self) == (CodegenResult { vars_seen: final(self).vars_seen, ..*old(self) }),
    {
        let n = name.clone();
        self.vars_seen.push(n);
        proof {
            assert(self.vars_seen@.drop_last() =~= old(self).vars_seen@);
        }
    }

    /// The number of overloads of `name` emitted so far; the count goes up
    /// by one.
    pub fn overload_number(&mut self, name: &String) -> (r: u32)
        requires
            old(self).wf(),
            old(self).overloads(name@) < u32::MAX,
        ensures
            final(self).wf(),
            r == old(self).overloads(name@),
            final(self).overloads(name@) == r + 1,
            forall|n: Seq<char>| n != name@ ==> final(self).overloads(n) == old(self).overloads(n),
            *final(self) == (CodegenResult { overload_counters: final(self).overload_counters, ..*old(self) }),
    {
        self.overload_counters.bump(name)
    }

    /// How many overloads of `name` were emitted.
    pub fn overload_count(&self, name: &String) -> (r: u32)
        requires
            self.wf(),
        ensures
            r == self.overloads(name@),
    {
        self.overload_counters.get(name)
    }

    /// Adds an item at the end.
    pub fn push_item(&mut self, item: quote::Tokens)
        ensures
            final(self).items_text() == old(self).items_text().push(tokens_text(item)),
            *final(self) == (CodegenResult { items: final(self).items, ..*old(self) }),
    {
        self.items.push(item);
        proof {
            assert(self.items_text() =~= old(self).items_text().push(tokens_text(item)));
        }
    }

    /// Takes the items of a nested scope's result and keeps its flags: the
    /// helper types it asked for are still owed at the root.
    pub fn inner(&mut self, child: CodegenResult) -> (r: Vec<quote::Tokens>)
        ensures
            r@ == child.items@,
            final(self).saw_union == (old(self).saw_union || child.saw_union),
            final(self).saw_bindgen_union == (old(self).saw_bindgen_union || child.saw_bindgen_union),
            final(self).saw_incomplete_array == (old(self).saw_incomplete_array || child.saw_incomplete_array),
            final(self).saw_objc == (old(self).saw_objc || child.saw_objc),
            final(self).codegen_id == child.codegen_id,
            final(self).items == old(self).items,
            final(self).items_seen == old(self).items_seen,
            final(self).functions_seen == old(self).functions_seen,
            final(self).vars_seen == old(self).vars_seen,
            final(self).overload_counters == old(self).overload_counters,
    {
        self.saw_union = self.saw_union || child.saw_union;
        self.saw_bindgen_union = self.saw_bindgen_union || child.saw_bindgen_union;
        self.saw_incomplete_array = self.saw_incomplete_array || child.saw_incomplete_array;
        self.saw_objc = self.saw_objc || child.saw_objc;
        self.codegen_id = child.codegen_id;
        child.items
    }

    /// A fresh number for a name nothing refers to.
    pub fn next_id(&mut self) -> (r: u64)
        requires
            old(self).codegen_id < u64::MAX,
        ensures
            r == old(self).codegen_id,
            *final(self) == (CodegenResult { codegen_id: (r + 1) as u64, ..*old(self) }),
    {
        let r = self.codegen_id;
        self.codegen_id = r + 1;
        r
    }
}


impl NameCounts {
    /// How many times `name` was counted.
    pub open spec fn count(&self, name: Seq<char>) -> nat {
        if exists|i: int| 0 <= i < self.entries.len() && #[trigger] self.entries@[i].0@ == name {
            let i = choose|i: int| 0 <= i < self.entries.len() && #[trigger] self.entries@[i].0@ == name;
            self.entries@[i].1 as nat
        } else {
            0
        }
    }

    /// The count of every name, as a function.
    pub open spec fn count_fn(&self) -> spec_fn(Seq<char>) -> nat {
        |n: Seq<char>| self.count(n)
    }

    /// Each name has at most one entry.
    pub open spec fn wf(&self) -> bool {
        forall|i: int, j: int| 0 <= i < self.entries.len() && 0 <= j < self.entries.len()
            && #[trigger] self.entries@[i].0@ == #[trigger] self.entries@[j].0@ ==> i == j
    }

    pub fn new() -> (r: NameCounts)
        ensures
            r.wf(),
            r.entries@.len() == 0,
            forall|n: Seq<char>| r.count(n) == 0,
    {
        NameCounts { entries: Vec::new() }
    }

    proof fn lemma_count_at(&self, i: int, name: Seq<char>)
        requires
            self.wf(),
            0 <= i < self.entries.len(),
            self.entries@[i].0@ == name,
        ensures
            self.count(name) == self.entries@[i].1,
    {
        let j = choose|j: int| 0 <= j < self.entries.len() && #[trigger] self.entries@[j].0@ == name;
        assert(self.entries@[j].0@ == self.entries@[i].0@);
    }

    proof fn lemma_count_none(&self, name: Seq<char>)
        requires
            forall|j: int| 0 <= j < self.entries.len() ==> #[trigger] self.entries@[j].0@ != name,
        ensures
            self.count(name) == 0,
    {
    }

    /// The count of `name` so far; it goes up by one.
    pub fn bump(&mut self, name: &String) -> (r: u32)
        requires
            old(self).wf(),
            old(self).count(name@) < u32::MAX,
        ensures
            final(self).wf(),
            r == old(self).count(name@),
            final(self).count(name@) == r + 1,
            forall|n: Seq<char>| n != name@ ==> final(self).count(n) == old(self).count(n),
    {
        let mut i: usize = 0;
        while i < self.entries.len()
            invariant
                i <= self.entries.len(),
                *self == *old(self),
                old(self).wf(),
                old(self).count(name@) < u32::MAX,
                forall|k: int| 0 <= k < i ==> #[trigger] self.entries@[k].0@ != name@,
            decreases self.entries.len() - i,
        {
            if self.entries[i].0 == *name {
                let count = self.entries[i].1;
                proof {
                    old(self).lemma_count_at(i as int, name@);
                }
                let key = self.entries[i].0.clone();
                self.entries.set(i, (key, count + 1));
                proof {
                    let before = old(self).entries@;
                    let after = self.entries@;
                    assert forall|a: int| 0 <= a < after.len() implies #[trigger] after[a].0@ == before[a].0@ by {}
                    assert forall|a: int, b: int| 0 <= a < after.len() && 0 <= b < after.len()
                        && #[trigger] after[a].0@ == #[trigger] after[b].0@ implies a == b by {
                        assert(before[a].0@ == before[b].0@);
                    }
                    self.lemma_count_at(i as int, name@);
                    assert forall|n: Seq<char>| n != name@ implies self.count(n) == old(self).count(n) by {
                        if exists|j: int| 0 <= j < after.len() && #[trigger] after[j].0@ == n {
                            let j = choose|j: int| 0 <= j < after.len() && #[trigger] after[j].0@ == n;
                            self.lemma_count_at(j, n);
                            assert(before[j].0@ == n);
                            old(self).lemma_count_at(j, n);
                        } else {
                            self.lemma_count_none(n);
                            assert forall|j: int| 0 <= j < before.len() implies #[trigger] before[j].0@ != n by {
                                assert(after[j].0@ == before[j].0@);
                            }
                            old(self).lemma_count_none(n);
                        }
                    }
                }
                return count;
            }
            i = i + 1;
        }
        proof {
            old(self).lemma_count_none(name@);
        }
        self.entries.push((name.clone(), 1));
        proof {
            let before = old(self).entries@;
            let after = self.entries@;
            let last = after.len() - 1;
            assert(after[last].0@ == name@);
            assert forall|a: int, b: int| 0 <= a < after.len() && 0 <= b < after.len()
                && #[trigger] after[a].0@ == #[trigger] after[b].0@ implies a == b by {
                if a < last && b < last {
                    assert(before[a].0@ == before[b].0@);
                } else if a < last {
                    assert(before[a].0@ == after[a].0@);
                } else if b < last {
                    assert(before[b].0@ == after[b].0@);
                }
            }
            self.lemma_count_at(last, name@);
            assert forall|n: Seq<char>| n != name@ implies self.count(n) == old(self).count(n) by {
                if exists|j: int| 0 <= j < after.len() && #[trigger] after[j].0@ == n {
                    let j = choose|j: int| 0 <= j < after.len() && #[trigger] after[j].0@ == n;
                    self.lemma_count_at(j, n);
                    assert(j < last);
                    assert(before[j].0@ == n);
                    old(self).lemma_count_at(j, n);
                } else {
                    self.lemma_count_none(n);
                    assert forall|j: int| 0 <= j < before.len() implies #[trigger] before[j].0@ != n by {
                        assert(after[j].0@ == before[j].0@);
                    }
                    old(self).lemma_count_none(n);
                }
            }
        }
        0
    }

    /// The count of `name`.
    pub fn get(&self, name: &String) -> (r: u32)
        requires
            self.wf(),
        ensures
            r == self.count(name@),
    {
        let mut i: usize = 0;
        while i < self.entries.len()
            invariant
                i <= self.entries.len(),
                self.wf(),
                forall|k: int| 0 <= k < i ==> #[trigger] self.entries@[k].0@ != name@,
            decreases self.entries.len() - i,
        {
            if self.entries[i].0 == *name {
                proof {
                    self.lemma_count_at(i as int, name@);
                }
                return self.entries[i].1;
            }
            i = i + 1;
        }
        proof {
            self.lemma_count_none(name@);
        }
        0
    }

}

/// Whether `name` is among `v`.
pub fn find_text(v: &Vec<String>, name: &String) -> (r: bool)
    ensures
        r == contains_text(v@, name@),
{
    let mut i: usize = 0;
    while i < v.len()
        invariant
            i <= v.len(),
            forall|k: int| 0 <= k < i ==> #[trigger] v@[k]@ != name@,
        decreases v.len() - i,
    {
        if v[i] == *name {
            return true;
        }
        i = i + 1;
    }
    false
}

} // verus!
