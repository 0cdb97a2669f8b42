//! The table of attribution labels and their live counters.
//!
//! The table maps a label to the bytes and the number of allocations that are
//! live under it. An entry is made when the first allocation is seen for its
//! label and is never taken out again. The table owns the text of its labels,
//! so a label lives as long as the table does.

pub mod demangle;

use crate::counter::{credited, debited, lemma_wrapped_exact, lemma_wrapped_step, wrapped};
use crate::symbols::demangle::{attribution, get_demangled_symbol, str_views, FrameNames};
use vstd::prelude::*;

verus! {

/// What a symbol counts, as numbers.
pub struct Counters {
    /// Bytes that are live under the label.
    pub allocated: nat,
    /// Allocations that are live under the label.
    pub count: nat,
}

/// The contents of a table: the counters of each label that it holds.
pub type Contents = Map<Seq<char>, Counters>;

/// The counters of an entry that has seen nothing yet.
pub open spec fn zero_counters() -> Counters {
    Counters { allocated: 0, count: 0 }
}

/// The counters after one more allocation of `bytes`.
pub open spec fn credit(counters: Counters, bytes: nat) -> Counters {
    Counters {
        allocated: wrapped(counters.allocated as int + bytes),
        count: wrapped(counters.count as int + 1),
    }
}

/// The counters after one deallocation of `bytes`.
pub open spec fn debit(counters: Counters, bytes: nat) -> Counters {
    Counters {
        allocated: wrapped(counters.allocated as int - bytes),
        count: wrapped(counters.count as int - 1),
    }
}

/// The contents after an allocation of `bytes` attributed to `label`: the
/// entry of `label` is credited, and made first when it is not there yet.
pub open spec fn after_alloc(contents: Contents, label: Seq<char>, bytes: nat) -> Contents {
    contents.insert(label, credit(counters_of(contents, label), bytes))
}

/// The contents after a deallocation of `bytes` attributed to `label`: the
/// entry of `label` is debited; without such an entry nothing changes.
pub open spec fn after_dealloc(contents: Contents, label: Seq<char>, bytes: nat) -> Contents {
    if contents.contains_key(label) {
        contents.insert(label, debit(contents[label], bytes))
    } else {
        contents
    }
}

/// The counters of `label` in `contents`; those of a fresh entry when
/// `contents` has none for it.
pub open spec fn counters_of(contents: Contents, label: Seq<char>) -> Counters {
    if contents.contains_key(label) {
        contents[label]
    } else {
        zero_counters()
    }
}

/// Both counters fit in a machine word.
pub open spec fn counters_fit(counters: Counters) -> bool {
    counters.allocated <= usize::MAX && counters.count <= usize::MAX
}

/// The first allocation under a label makes its entry, with the bytes of
/// that allocation and a count of one, and touches no other entry.
pub proof fn law_first_alloc_makes_entry(contents: Contents, label: Seq<char>, bytes: nat)
    requires
        !contents.contains_key(label),
        bytes <= usize::MAX,
    ensures
        after_alloc(contents, label, bytes) == contents.insert(
            label,
            Counters { allocated: bytes, count: 1 },
        ),
{
    lemma_wrapped_exact(bytes as int);
    lemma_wrapped_exact(1);
}

/// Giving back the bytes that were allocated under a label undoes the
/// allocation: the label keeps its entry, with the counters that it had
/// before, which for an entry that the allocation made are both zero. No
/// other entry changes.
pub proof fn law_dealloc_undoes_alloc(contents: Contents, label: Seq<char>, bytes: nat)
    requires
        counters_fit(counters_of(contents, label)),
    ensures
        after_dealloc(after_alloc(contents, label, bytes), label, bytes) == contents.insert(
            label,
            counters_of(contents, label),
        ),
{
    let before = counters_of(contents, label);
    lemma_wrapped_step(before.allocated as int + bytes, -(bytes as int));
    lemma_wrapped_step(before.count as int + 1, -1);
    lemma_wrapped_exact(before.allocated as int);
    lemma_wrapped_exact(before.count as int);
    let mid = after_alloc(contents, label, bytes);
    assert(mid.contains_key(label));
    assert(debit(mid[label], bytes) == before);
    assert(after_dealloc(mid, label, bytes) =~= contents.insert(label, before));
}

/// A deallocation under a label that the table does not hold is dropped:
/// it makes no entry and changes none.
pub proof fn law_dealloc_without_entry(contents: Contents, label: Seq<char>, bytes: nat)
    requires
        !contents.contains_key(label),
    ensures
        after_dealloc(contents, label, bytes) == contents,
{
}

/// Neither an allocation nor a deallocation takes an entry out of the table
/// or touches the entry of another label.
pub proof fn law_entries_stay(contents: Contents, label: Seq<char>, bytes: nat, other: Seq<char>)
    requires
        contents.contains_key(other),
    ensures
        after_alloc(contents, label, bytes).contains_key(other),
        after_dealloc(contents, label, bytes).contains_key(other),
        other != label ==> after_alloc(contents, label, bytes)[other] == contents[other],
        other != label ==> after_dealloc(contents, label, bytes)[other] == contents[other],
{
}

/// A slot in the symbol table.
#[derive(Debug)]
pub struct Symbol {
    /// Allocated bytes for this symbol.
    allocated: usize,
    /// Allocation count for this symbol.
    count: usize,
}

impl View for Symbol {
    type V = Counters;

    closed spec fn view(&self) -> Counters {
        Counters { allocated: self.allocated as nat, count: self.count as nat }
    }
}

impl Symbol {
    /// Returns the number of bytes allocated for this symbol.
    pub fn allocated(&self) -> (bytes: usize)
        ensures
            bytes == self@.allocated,
    {
        self.allocated
    }

    /// Returns the number of allocations for this symbol.
    pub fn count(&self) -> (count: usize)
        ensures
            count == self@.count,
    {
        self.count
    }
}

/// A label of the table with its counters.
#[derive(Debug)]
struct Entry {
    name: String,
    symbol: Symbol,
}

/// A [`Symbol`] table.
///
/// Each [`Symbol`] is identified by the qualified name of a call site (e.g.
/// `my_crate::cache::fill`).
#[derive(Debug)]
pub struct SymbolTable {
    /// The modules that are being traced.
    modules: &'static [&'static str],
    /// The entries, in the order in which their labels were first seen.
    entries: Vec<Entry>,
}

impl View for SymbolTable {
    type V = Contents;

    closed spec fn view(&self) -> Contents {
        Map::new(
            |label: Seq<char>| self.holds(label),
            |label: Seq<char>| self.entries@[self.index_of(label)].symbol@,
        )
    }
}

impl SymbolTable {
    /// Some entry carries `label`.
    spec fn holds(&self, label: Seq<char>) -> bool {
        exists|i: int| 0 <= i < self.entries@.len() && (#[trigger] self.entries@[i]).name@ == label
    }

    /// The position of the entry that carries `label`.
    spec fn index_of(&self, label: Seq<char>) -> int {
        choose|i: int| 0 <= i < self.entries@.len() && (#[trigger] self.entries@[i]).name@ == label
    }

    /// No label occurs twice.
    pub closed spec fn wf(&self) -> bool {
        forall|i: int, j: int|
            0 <= i < j < self.entries@.len() ==> (#[trigger] self.entries@[i]).name@ != (
            #[trigger] self.entries@[j]).name@
    }

    /// The prefixes of the modules that are being traced.
    pub closed spec fn modules(&self) -> Seq<Seq<char>> {
        str_views(self.modules@)
    }

    /// In a well-formed table the entry at `at` is the one that its label leads to.
    proof fn lemma_entry(&self, at: int)
        requires
            self.wf(),
            0 <= at < self.entries@.len(),
        ensures
            self.holds(self.entries@[at].name@),
            self.index_of(self.entries@[at].name@) == at,
            self@.contains_pair(self.entries@[at].name@, self.entries@[at].symbol@),
    {
        let label = self.entries@[at].name@;
        let chosen = self.index_of(label);
        assert(self.entries@[chosen].name@ == label);
        if chosen < at {
            assert(self.entries@[chosen].name@ != self.entries@[at].name@);
        } else if at < chosen {
            assert(self.entries@[at].name@ != self.entries@[chosen].name@);
        }
    }

    /// Every counter of a table fits in a machine word, as the laws on the
    /// contents of a table ask of the counters that they start from.
    pub proof fn lemma_counters_fit(&self, label: Seq<char>)
        ensures
            counters_fit(counters_of(self@, label)),
    {
    }

    /// Creates a new [`SymbolTable`] with the given size and modules. The
    /// table starts without entries; `size` only says for how many entries
    /// room is set aside at once.
    pub fn new(size: usize, modules: &'static [&'static str]) -> (table: Self)
        ensures
            table.wf(),
            table@ == Map::<Seq<char>, Counters>::empty(),
            table.modules() == str_views(modules@),
    {
        let mut entries: Vec<Entry> = Vec::new();
        // Room that cannot be had is done without: the table grows as it fills.
        let _ = entries.try_reserve(size);
        let table = Self { modules, entries };
        assert(table@ =~= Map::<Seq<char>, Counters>::empty());
        table
    }

    /// The position of the entry of `name`.
    fn position(&self, name: &String) -> (found: Option<usize>)
        requires
            self.wf(),
        ensures
            match found {
                Some(at) => at < self.entries@.len() && self.entries@[at as int].name@ == name@,
                None => !self.holds(name@),
            },
    {
        let mut i: usize = 0;
        while i < self.entries.len()
            invariant
                i <= self.entries@.len(),
                forall|j: int| 0 <= j < i ==> (#[trigger] self.entries@[j]).name@ != name@,
            decreases self.entries@.len() - i,
        {
            if self.entries[i].name == *name {
                return Some(i);
            }
            i += 1;
        }
        None
    }

    /// Gets a [`Symbol`] by its name.
    pub fn get(&self, name: &str) -> (found: Option<&Symbol>)
        requires
            self.wf(),
        ensures
            match found {
                Some(symbol) => self@.contains_pair(name@, symbol@),
                None => !self@.contains_key(name@),
            },
    {
        match self.position(&name.to_owned()) {
            Some(at) => {
                proof {
                    self.lemma_entry(at as int);
                }
                Some(&self.entries[at].symbol)
            },
            None => None,
        }
    }
}

impl SymbolTable {
    /// Inserts a new [`Symbol`] into the table: the entry of `name` starts
    /// from zero, also when the table already held one.
    pub fn insert(&mut self, name: &str)
        requires
            old(self).wf(),
        ensures
            final(self).wf(),
            final(self).modules() == old(self).modules(),
            final(self)@ == old(self)@.insert(name@, zero_counters()),
    {
        let owned = name.to_owned();
        let fresh = Symbol { allocated: 0, count: 0 };
        match self.position(&owned) {
            Some(at) => {
                let entry = &mut self.entries[at];
                entry.symbol = fresh;
                proof {
                    self.lemma_replaced(*old(self), at as int);
                }
            },
            None => {
                self.entries.push(Entry { name: owned, symbol: fresh });
                proof {
                    self.lemma_appended(*old(self));
                }
            },
        }
    }

    /// Credits an allocation of `bytes` to the entry of `name`, which is made
    /// first when the table does not hold it yet.
    pub fn credit_label(&mut self, name: &str, bytes: usize)
        requires
            old(self).wf(),
        ensures
            final(self).wf(),
            final(self).modules() == old(self).modules(),
            final(self)@ == after_alloc(old(self)@, name@, bytes as nat),
    {
        let owned = name.to_owned();
        match self.position(&owned) {
            Some(at) => {
                proof {
                    self.lemma_entry(at as int);
                }
                let entry = &mut self.entries[at];
                entry.symbol.allocated = credited(entry.symbol.allocated, bytes);
                entry.symbol.count = credited(entry.symbol.count, 1);
                proof {
                    self.lemma_replaced(*old(self), at as int);
                }
            },
            None => {
                let symbol = Symbol { allocated: credited(0, bytes), count: credited(0, 1) };
                self.entries.push(Entry { name: owned, symbol });
                proof {
                    self.lemma_appended(*old(self));
                }
            },
        }
    }

    /// Debits a deallocation of `bytes` from the entry of `name`. Without
    /// such an entry the table stays as it is.
    pub fn debit_label(&mut self, name: &str, bytes: usize)
        requires
            old(self).wf(),
        ensures
            final(self).wf(),
            final(self).modules() == old(self).modules(),
            final(self)@ == after_dealloc(old(self)@, name@, bytes as nat),
    {
        let owned = name.to_owned();
        match self.position(&owned) {
            Some(at) => {
                proof {
                    self.lemma_entry(at as int);
                }
                let entry = &mut self.entries[at];
                entry.symbol.allocated = debited(entry.symbol.allocated, bytes);
                entry.symbol.count = debited(entry.symbol.count, 1);
                proof {
                    self.lemma_replaced(*old(self), at as int);
                }
            },
            None => {},
        }
    }

    /// Increments the allocated bytes for a [`Symbol`]: the one that the
    /// stack of the calling thread is attributed to.
    pub fn allocate(&mut self, bytes: usize)
        requires
            old(self).wf(),
        ensures
            final(self).wf(),
            final(self).modules() == old(self).modules(),
            exists|frames: FrameNames|
                final(self)@ == after_alloc(
                    old(self)@,
                    attribution(frames, old(self).modules()),
                    bytes as nat,
                ),
    {
        let name = get_demangled_symbol(self.modules);
        self.credit_label(name.as_str(), bytes);
    }

    /// Decrements the allocated bytes for a [`Symbol`]: the one that the
    /// stack of the calling thread is attributed to.
    pub fn dealloc(&mut self, bytes: usize)
        requires
            old(self).wf(),
        ensures
            final(self).wf(),
            final(self).modules() == old(self).modules(),
            exists|frames: FrameNames|
                final(self)@ == after_dealloc(
                    old(self)@,
                    attribution(frames, old(self).modules()),
                    bytes as nat,
                ),
    {
        let name = get_demangled_symbol(self.modules);
        self.debit_label(name.as_str(), bytes);
    }

    /// The table after the symbol of the entry at `at` of `before` was replaced.
    proof fn lemma_replaced(&self, before: Self, at: int)
        requires
            before.wf(),
            0 <= at < before.entries@.len(),
            self.modules == before.modules,
            self.entries@.len() == before.entries@.len(),
            self.entries@[at].name == before.entries@[at].name,
            forall|i: int|
                0 <= i < before.entries@.len() && i != at ==> self.entries@[i] == before.entries@[i],
        ensures
            self.wf(),
            self@ == before@.insert(before.entries@[at].name@, self.entries@[at].symbol@),
    {
        assert forall|i: int| 0 <= i < self.entries@.len() implies (#[trigger] self.entries@[i]).name
            == before.entries@[i].name by {}
        assert(self.wf()) by {
            assert forall|i: int, j: int| 0 <= i < j < self.entries@.len() implies (
            #[trigger] self.entries@[i]).name@ != (#[trigger] self.entries@[j]).name@ by {
                assert(before.entries@[i].name@ != before.entries@[j].name@);
            }
        }
        let label = before.entries@[at].name@;
        let want = before@.insert(label, self.entries@[at].symbol@);
        assert forall|l: Seq<char>| self@.contains_key(l) <==> want.contains_key(l) by {
            if self.holds(l) {
                let i = self.index_of(l);
                assert(before.entries@[i].name@ == l);
            }
            if before.holds(l) {
                let i = before.index_of(l);
                assert(self.entries@[i].name@ == l);
            }
            self.lemma_entry(at);
        }
        assert forall|l: Seq<char>| self@.contains_key(l) implies self@[l] == want[l] by {
            let i = self.index_of(l);
            self.lemma_entry(i);
            before.lemma_entry(i);
        }
        assert(self@ =~= want);
    }

    /// The table after an entry with a label that `before` lacked was put at its end.
    proof fn lemma_appended(&self, before: Self)
        requires
            before.wf(),
            self.modules == before.modules,
            self.entries@.len() == before.entries@.len() + 1,
            forall|i: int| 0 <= i < before.entries@.len() ==> self.entries@[i] == before.entries@[i],
            !before.holds(self.entries@.last().name@),
        ensures
            self.wf(),
            self@ == before@.insert(self.entries@.last().name@, self.entries@.last().symbol@),
    {
        let end = before.entries@.len() as int;
        let label = self.entries@[end].name@;
        assert(self.wf()) by {
            assert forall|i: int, j: int| 0 <= i < j < self.entries@.len() implies (
            #[trigger] self.entries@[i]).name@ != (#[trigger] self.entries@[j]).name@ by {
                if j < end {
                    assert(before.entries@[i].name@ != before.entries@[j].name@);
                } else {
                    assert(before.entries@[i].name@ != label);
                }
            }
        }
        let want = before@.insert(label, self.entries@[end].symbol@);
        assert forall|l: Seq<char>| self@.contains_key(l) <==> want.contains_key(l) by {
            if self.holds(l) {
                let i = self.index_of(l);
                if i < end {
                    assert(before.entries@[i].name@ == l);
                }
            }
            if before.holds(l) {
                let i = before.index_of(l);
                assert(self.entries@[i].name@ == l);
            }
            self.lemma_entry(end);
        }
        assert forall|l: Seq<char>| self@.contains_key(l) implies self@[l] == want[l] by {
            let i = self.index_of(l);
            self.lemma_entry(i);
            if i < end {
                before.lemma_entry(i);
            }
        }
        assert(self@ =~= want);
    }
}

impl SymbolTable {
    /// Iterates over the [`Symbol`]s in the table, with their names: each
    /// label of the table is listed once, with its symbol.
    pub fn iter(&self) -> (listed: Vec<(&str, &Symbol)>)
        requires
            self.wf(),
        ensures
            forall|i: int|
                0 <= i < listed@.len() ==> self@.contains_pair(
                    (#[trigger] listed@[i]).0@,
                    listed@[i].1@,
                ),
            forall|i: int, j: int|
                0 <= i < j < listed@.len() ==> (#[trigger] listed@[i]).0@ != (
                #[trigger] listed@[j]).0@,
            forall|label: Seq<char>|
                self@.contains_key(label) ==> exists|i: int|
                    0 <= i < listed@.len() && (#[trigger] listed@[i]).0@ == label,
    {
        let mut listed: Vec<(&str, &Symbol)> = Vec::with_capacity(self.entries.len());
        let mut i: usize = 0;
        while i < self.entries.len()
            invariant
                self.wf(),
                i <= self.entries@.len(),
                listed@.len() == i,
                forall|j: int|
                    0 <= j < i ==> (#[trigger] listed@[j]).0@ == self.entries@[j].name@
                        && listed@[j].1@ == self.entries@[j].symbol@,
            decreases self.entries@.len() - i,
        {
            let entry = &self.entries[i];
            listed.push((entry.name.as_str(), &entry.symbol));
            i += 1;
        }
        proof {
            assert forall|j: int| 0 <= j < listed@.len() implies self@.contains_pair(
                (#[trigger] listed@[j]).0@,
                listed@[j].1@,
            ) by {
                self.lemma_entry(j);
            }
            assert forall|label: Seq<char>| self@.contains_key(label) implies exists|j: int|
                0 <= j < listed@.len() && (#[trigger] listed@[j]).0@ == label by {
                let at = self.index_of(label);
                assert(listed@[at].0@ == label);
            }
        }
        listed
    }
}

} // verus!
