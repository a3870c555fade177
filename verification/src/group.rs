//! An opened archive, modeled as its observable contents: display name, full
//! path, the ordered entry list, and the iteration cursor.

use vstd::prelude::*;
use vstd::string::*;
use crate::errors::Error;
use crate::strutil::str_eq;

verus! {

/// One named entry of an archive, with its bytes.
pub struct Entry {
    pub name: String,
    pub data: Vec<u8>,
}

/// The mathematical value of an `Entry`.
pub ghost struct EntryView {
    pub name: Seq<char>,
    pub data: Seq<u8>,
}

impl View for Entry {
    type V = EntryView;

    open spec fn view(&self) -> EntryView {
        EntryView { name: self.name@, data: self.data@ }
    }
}

/// The mathematical value of a `Group`.
pub ghost struct GroupView {
    pub name: Seq<char>,
    pub full_name: Seq<char>,
    pub entries: Seq<EntryView>,
    pub cursor: int,
}

/// An opened archive with a resettable iteration cursor.
pub struct Group {
    name: String,
    full_name: String,
    entries: Vec<Entry>,
    cursor: usize,
}

impl View for Group {
    type V = GroupView;

    closed spec fn view(&self) -> GroupView {
        GroupView {
            name: self.name@,
            full_name: self.full_name@,
            entries: self.entries@.map_values(|e: Entry| e@),
            cursor: self.cursor as int,
        }
    }
}

/// The bytes of the first entry named `name`, or nothing when no entry
/// carries that name.
pub open spec fn find_entry(entries: Seq<EntryView>, name: Seq<char>) -> Option<Seq<u8>>
    decreases entries.len(),
{
    if entries.len() == 0 {
        None
    } else if entries[0].name == name {
        Some(entries[0].data)
    } else {
        find_entry(entries.drop_first(), name)
    }
}

/// The entry names still ahead of the cursor, in order.
pub open spec fn names_from(g: GroupView) -> Seq<Seq<char>> {
    if 0 <= g.cursor <= g.entries.len() {
        g.entries.skip(g.cursor).map_values(|e: EntryView| e.name)
    } else {
        Seq::empty()
    }
}

/// The value of `g` after its cursor is reset.
pub open spec fn rewound(g: GroupView) -> GroupView {
    GroupView { name: g.name, full_name: g.full_name, entries: g.entries, cursor: 0 }
}

impl Group {
    /// The cursor never leaves the entry list.
    pub open spec fn wf(&self) -> bool {
        0 <= self@.cursor <= self@.entries.len()
    }

    /// Wraps already-listed contents as an opened archive, with the cursor at
    /// the start.
    pub fn from_entries(name: String, full_name: String, entries: Vec<Entry>) -> (g: Group)
        ensures
            g.wf(),
            g@.name == name@,
            g@.full_name == full_name@,
            g@.entries == entries@.map_values(|e: Entry| e@),
            g@.cursor == 0,
    {
        Group { name, full_name, entries, cursor: 0 }
    }

    /// The archive's display name.
    pub fn name(&self) -> (r: String)
        ensures
            r@ == self@.name,
    {
        self.name.clone()
    }

    /// The archive's full path.
    pub fn full_name(&self) -> (r: String)
        ensures
            r@ == self@.full_name,
    {
        self.full_name.clone()
    }

    /// Resets the iteration cursor to the start of the entry list.
    pub fn rewind(&mut self)
        ensures
            final(self).wf(),
            final(self)@ == rewound(old(self)@),
    {
        self.cursor = 0;
    }

    /// Produces the next entry name and advances the cursor, or reports the
    /// end of the list.
    pub fn next_entry(&mut self) -> (r: Option<String>)
        requires
            old(self).wf(),
        ensures
            final(self).wf(),
            final(self)@.name == old(self)@.name,
            final(self)@.full_name == old(self)@.full_name,
            final(self)@.entries == old(self)@.entries,
            match r {
                Some(name) => old(self)@.cursor < old(self)@.entries.len()
                    && name@ == old(self)@.entries[old(self)@.cursor].name
                    && final(self)@.cursor == old(self)@.cursor + 1,
                None => old(self)@.cursor == old(self)@.entries.len()
                    && final(self)@.cursor == old(self)@.cursor,
            },
    {
        if self.cursor < self.entries.len() {
            let name = self.entries[self.cursor].name.clone();
            assert(self@.entries[self@.cursor] == self.entries@[self@.cursor]@);
            self.cursor = self.cursor + 1;
            Some(name)
        } else {
            None
        }
    }

    /// Reads the bytes of the entry called `name`; an absent entry is an
    /// archive error.
    pub fn load_entry(&self, name: &str) -> (r: Result<Vec<u8>, Error>)
        ensures
            match r {
                Ok(data) => find_entry(self@.entries, name@) == Some(data@),
                Err(e) => find_entry(self@.entries, name@) is None && e is Group,
            },
    {
        let ghost entries = self@.entries;
        proof {
            assert(entries.skip(0) =~= entries);
        }
        let mut i: usize = 0;
        while i < self.entries.len()
            invariant
                self@.entries == self.entries@.map_values(|e: Entry| e@),
                entries == self@.entries,
                i <= self.entries@.len(),
                find_entry(entries, name@) == find_entry(entries.skip(i as int), name@),
            decreases self.entries@.len() - i,
        {
            assert(entries.skip(i as int)[0] == entries[i as int]);
            if str_eq(self.entries[i].name.as_str(), name) {
                assert(find_entry(entries.skip(i as int), name@) == Some(entries[i as int].data));
                return Ok(self.entries[i].data.clone());
            }
            proof {
                assert(entries.skip(i as int).drop_first() =~= entries.skip(i + 1));
            }
            i = i + 1;
        }
        proof {
            assert(entries.skip(i as int) =~= Seq::<EntryView>::empty());
        }
        let mut msg = String::new();
        msg.append("entry not found: ");
        msg.append(name);
        Err(Error::Group(msg))
    }
}

/// After a rewind the iteration walks the whole entry list in order, whatever
/// the cursor held before; so iterating after `rewind` always reproduces the
/// same name sequence.
pub proof fn lemma_rewind_reproduces(g: GroupView)
    ensures
        names_from(rewound(g)) == g.entries.map_values(|e: EntryView| e.name),
{
    assert(rewound(g).entries.skip(0) =~= g.entries);
}

} // verus!
