//! The output of one resolution pass: the resolved entries under their
//! output identifiers.

use vstd::hash_map::StringHashMap;
use vstd::prelude::*;

verus! {

/// One piece of text under the identifier it is published with.
pub struct ResolvedEntry {
    pub output_id: String,
    pub display_key: String,
    pub text: String,
}

/// What a resolved entry says, as plain sequences of characters.
pub ghost struct EntryView {
    pub output_id: Seq<char>,
    pub display_key: Seq<char>,
    pub text: Seq<char>,
}

impl View for ResolvedEntry {
    type V = EntryView;

    open spec fn view(&self) -> EntryView {
        EntryView { output_id: self.output_id@, display_key: self.display_key@, text: self.text@ }
    }
}

/// The entries of one category in one language. No two of them share an
/// output identifier: an entry that comes later under the same identifier
/// takes the place of the earlier one.
pub struct OutputTable {
    entries: Vec<ResolvedEntry>,
    slots: StringHashMap<usize>,
}

impl View for OutputTable {
    type V = Map<Seq<char>, EntryView>;

    closed spec fn view(&self) -> Map<Seq<char>, EntryView> {
        Map::new(
            |id: Seq<char>| self.slots@.contains_key(id),
            |id: Seq<char>| self.entries@[self.slots@[id] as int]@,
        )
    }
}

impl OutputTable {
    /// The output identifiers of the table, each once, in the order in
    /// which they first came in.
    pub closed spec fn order(&self) -> Seq<Seq<char>> {
        Seq::new(self.entries@.len(), |i: int| self.entries@[i].output_id@)
    }

    #[verifier::type_invariant]
    spec fn inv(self) -> bool {
        &&& forall|id: Seq<char>| #[trigger]
            self.slots@.contains_key(id) ==> self.slots@[id] < self.entries@.len()
                && self.entries@[self.slots@[id] as int].output_id@ == id
        &&& forall|i: int|
            0 <= i < self.entries@.len() ==> self.slots@.contains_key(
                #[trigger] self.entries@[i].output_id@,
            ) && self.slots@[self.entries@[i].output_id@] == i
    }

    /// The table without entries.
    pub fn new() -> (table: OutputTable)
        ensures
            table@ == Map::<Seq<char>, EntryView>::empty(),
            table.order() == Seq::<Seq<char>>::empty(),
    {
        let table = OutputTable { entries: Vec::new(), slots: StringHashMap::new() };
        assert(table@ =~= Map::<Seq<char>, EntryView>::empty());
        assert(table.order() =~= Seq::<Seq<char>>::empty());
        table
    }

    /// The number of entries.
    pub fn len(&self) -> (n: usize)
        ensures
            n == self@.len(),
    {
        proof {
            use_type_invariant(self);
            assert(self@.dom() =~= self.slots@.dom());
        }
        self.slots.len()
    }

    /// The entry under `id`, if there is one.
    pub fn get(&self, id: &str) -> (entry: Option<&ResolvedEntry>)
        ensures
            entry is Some <==> self@.contains_key(id@),
            entry matches Some(e) ==> e@ == self@[id@] && e.output_id@ == id@,
    {
        proof {
            use_type_invariant(self);
        }
        match self.slots.get(id) {
            Some(slot) => Some(&self.entries[*slot]),
            None => None,
        }
    }

    /// The entries, each once, in the order in which their identifiers
    /// first came in.
    pub fn entries(&self) -> (entries: &Vec<ResolvedEntry>)
        ensures
            entries@.len() == self.order().len(),
            forall|i: int|
                0 <= i < entries@.len() ==> #[trigger] entries@[i].output_id@ == self.order()[i]
                    && self@.contains_key(self.order()[i]) && self@[self.order()[i]]
                    == entries@[i]@,
            forall|id: Seq<char>| #[trigger]
                self@.contains_key(id) ==> exists|i: int|
                    0 <= i < entries@.len() && #[trigger] entries@[i].output_id@ == id,
            forall|i: int, j: int|
                0 <= i < j < entries@.len() ==> #[trigger] entries@[i].output_id@
                    != #[trigger] entries@[j].output_id@,
    {
        proof {
            use_type_invariant(self);
            assert forall|id: Seq<char>| #[trigger] self@.contains_key(id) implies exists|i: int|
                0 <= i < self.entries@.len() && #[trigger] self.entries@[i].output_id@ == id by {
                let i = self.slots@[id] as int;
                assert(self.entries@[i].output_id@ == id);
            }
        }
        &self.entries
    }

    /// Enters `entry` under its output identifier, in place of what the
    /// table held there.
    pub fn insert(&mut self, entry: ResolvedEntry)
        ensures
            final(self)@ == old(self)@.insert(entry.output_id@, entry@),
            final(self).order() == if old(self)@.contains_key(entry.output_id@) {
                old(self).order()
            } else {
                old(self).order().push(entry.output_id@)
            },
    {
        proof {
            use_type_invariant(&*self);
        }
        let ghost id = entry.output_id@;
        let ghost e = entry@;
        let mut taken = OutputTable { entries: Vec::new(), slots: StringHashMap::new() };
        std::mem::swap(self, &mut taken);
        let OutputTable { mut entries, mut slots } = taken;
        let found: Option<usize> = match slots.get(entry.output_id.as_str()) {
            Some(slot) => Some(*slot),
            None => None,
        };
        match found {
            Some(slot) => {
                entries.set(slot, entry);
            },
            None => {
                slots.insert(entry.output_id.clone(), entries.len());
                entries.push(entry);
            },
        }
        *self = OutputTable { entries, slots };
        assert(self@ =~= old(self)@.insert(id, e));
        assert(self.order() =~= if old(self)@.contains_key(id) {
            old(self).order()
        } else {
            old(self).order().push(id)
        });
    }
}

} // verus!
