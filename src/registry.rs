use vstd::prelude::*;

use crate::model::{
    entry_named, first_free, has_name, index_of, law_deregister_removes, law_register_unique,
    law_update_status_only, lemma_index_of, lemma_taken_names_bound, named_like, names_unique,
    of_type, upsert, watched, with_status, without_name,
};
use crate::text::{format_unit_name, str_contains, unit_name};
use crate::types::{EntryView, Query, RegistryEntry, RegistryError, UnitStatus, UnitType};

verus! {

/// The values of a list of entries.
pub open spec fn views(v: Seq<RegistryEntry>) -> Seq<EntryView> {
    v.map_values(|e: RegistryEntry| e@)
}

/// The directory of units, keyed by name. Callers get copies of entries,
/// never references into the directory.
///
/// Methods that change the registry take `&mut self`: for shared use, put
/// the registry behind one lock (a `Mutex<Registry>`). Each method is then
/// one short critical section that neither blocks nor suspends.
#[derive(Debug)]
pub struct Registry {
    entries: Vec<RegistryEntry>,
}

impl View for Registry {
    type V = Seq<EntryView>;

    /// The entries in enumeration order.
    closed spec fn view(&self) -> Seq<EntryView> {
        views(self.entries@)
    }
}

impl Registry {
    /// At most one entry per name.
    pub open spec fn wf(&self) -> bool {
        names_unique(self@)
    }

    /// An empty registry.
    pub fn new() -> (r: Self)
        ensures
            r.wf(),
            r@ == Seq::<EntryView>::empty(),
    {
        let r = Registry { entries: Vec::new() };
        assert(r@ =~= Seq::<EntryView>::empty());
        r
    }

    /// Where the entry named `name` stands.
    fn position(&self, name: &String) -> (r: Option<usize>)
        requires
            self.wf(),
        ensures
            match r {
                Some(i) => {
                    &&& i < self@.len()
                    &&& self@[i as int].name == name@
                    &&& i == index_of(self@, name@)
                    &&& has_name(self@, name@)
                },
                None => !has_name(self@, name@),
            },
    {
        let mut i: usize = 0;
        while i < self.entries.len()
            invariant
                i <= self.entries.len(),
                self.wf(),
                forall|j: int| 0 <= j < i ==> (#[trigger] self@[j]).name != name@,
            decreases self.entries.len() - i,
        {
            if self.entries[i].name == *name {
                proof {
                    lemma_index_of(self@, name@, i as int);
                }
                return Some(i);
            }
            i = i + 1;
        }
        None
    }

    /// Stores `entry` under its name, replacing any entry of that name.
    pub fn register(&mut self, entry: RegistryEntry)
        requires
            old(self).wf(),
        ensures
            final(self).wf(),
            final(self)@ == upsert(old(self)@, entry@),
    {
        proof {
            law_register_unique(self@, entry@);
        }
        let ghost e = entry@;
        match self.position(&entry.name) {
            Some(i) => {
                self.entries.set(i, entry);
                assert(self@ =~= upsert(old(self)@, e));
            },
            None => {
                self.entries.push(entry);
                assert(self@ =~= upsert(old(self)@, e));
            },
        }
    }

    /// Removes the entry named `name`.
    pub fn deregister(&mut self, name: String) -> (r: Result<(), RegistryError>)
        requires
            old(self).wf(),
        ensures
            final(self).wf(),
            r is Ok <==> has_name(old(self)@, name@),
            r is Ok ==> final(self)@ == without_name(old(self)@, name@),
            r is Err ==> final(self)@ == old(self)@ && r == Err::<(), RegistryError>(
                RegistryError::NotFound(Query::Name(name)),
            ),
    {
        match self.position(&name) {
            Some(i) => {
                proof {
                    law_deregister_removes(self@, name@);
                }
                self.entries.remove(i);
                assert(self@ =~= without_name(old(self)@, name@));
                Ok(())
            },
            None => Err(RegistryError::NotFound(Query::Name(name))),
        }
    }

    /// A copy of the entry named `name`.
    pub fn by_name(&self, name: String) -> (r: Result<RegistryEntry, RegistryError>)
        requires
            self.wf(),
        ensures
            r is Ok <==> has_name(self@, name@),
            r is Ok ==> r->Ok_0@ == entry_named(self@, name@),
            r is Err ==> r == Err::<RegistryEntry, RegistryError>(
                RegistryError::NotFound(Query::Name(name)),
            ),
    {
        match self.position(&name) {
            Some(i) => Ok(self.entries[i].clone()),
            None => Err(RegistryError::NotFound(Query::Name(name))),
        }
    }

    /// Copies of the entries whose name contains `name`, in enumeration order.
    pub fn by_name_many(&self, name: String) -> (r: Result<Vec<RegistryEntry>, RegistryError>)
        ensures
            r is Ok <==> named_like(self@, name@).len() > 0,
            r is Ok ==> views(r->Ok_0@) == named_like(self@, name@),
            r is Err ==> r == Err::<Vec<RegistryEntry>, RegistryError>(
                RegistryError::NotFound(Query::Substring(name)),
            ),
    {
        let mut list: Vec<RegistryEntry> = Vec::new();
        let mut i: usize = 0;
        while i < self.entries.len()
            invariant
                i <= self.entries.len(),
                views(list@) == named_like(self@.subrange(0, i as int), name@),
            decreases self.entries.len() - i,
        {
            proof {
                broadcast use Seq::lemma_filter_push;

                assert(self@.subrange(0, i + 1) =~= self@.subrange(0, i as int).push(self@[i as int]));
            }
            if str_contains(self.entries[i].name.as_str(), name.as_str()) {
                list.push(self.entries[i].clone());
            }
            assert(views(list@) =~= named_like(self@.subrange(0, i + 1), name@));
            i = i + 1;
        }
        assert(self@.subrange(0, self@.len() as int) =~= self@);
        if list.len() == 0 {
            Err(RegistryError::NotFound(Query::Substring(name)))
        } else {
            Ok(list)
        }
    }

    /// Copies of the entries of type `unit_type`, in enumeration order.
    pub fn by_type_many(&self, unit_type: UnitType) -> (r: Vec<RegistryEntry>)
        ensures
            views(r@) == of_type(self@, unit_type),
    {
        let mut list: Vec<RegistryEntry> = Vec::new();
        let mut i: usize = 0;
        while i < self.entries.len()
            invariant
                i <= self.entries.len(),
                views(list@) == of_type(self@.subrange(0, i as int), unit_type),
            decreases self.entries.len() - i,
        {
            proof {
                broadcast use Seq::lemma_filter_push;

                assert(self@.subrange(0, i + 1) =~= self@.subrange(0, i as int).push(self@[i as int]));
            }
            if self.entries[i].unit_type == unit_type {
                list.push(self.entries[i].clone());
            }
            assert(views(list@) =~= of_type(self@.subrange(0, i + 1), unit_type));
            i = i + 1;
        }
        assert(self@.subrange(0, self@.len() as int) =~= self@);
        list
    }

    /// A copy of the one entry of type `unit_type`.
    pub fn by_type(&self, unit_type: UnitType) -> (r: Result<RegistryEntry, RegistryError>)
        ensures
            r is Ok <==> of_type(self@, unit_type).len() == 1,
            r is Ok ==> r->Ok_0@ == of_type(self@, unit_type)[0],
            of_type(self@, unit_type).len() == 0 ==> r == Err::<RegistryEntry, RegistryError>(
                RegistryError::NotFound(Query::Type(unit_type)),
            ),
            of_type(self@, unit_type).len() > 1 ==> r == Err::<RegistryEntry, RegistryError>(
                RegistryError::Conflict(unit_type),
            ),
    {
        let list = self.by_type_many(unit_type);
        if list.len() == 1 {
            Ok(list[0].clone())
        } else if list.len() == 0 {
            Err(RegistryError::NotFound(Query::Type(unit_type)))
        } else {
            Err(RegistryError::Conflict(unit_type))
        }
    }

    /// Whether an entry is named `name`.
    pub fn contains(&self, name: String) -> (r: bool)
        requires
            self.wf(),
        ensures
            r == has_name(self@, name@),
    {
        self.position(&name).is_some()
    }

    /// The first of `<name>@0.service`, `<name>@1.service`, ... that no entry
    /// has. Nothing is reserved: a later `register` of another entry under
    /// that name replaces this caller's.
    pub fn create_unique_entry_name(&self, name: String) -> (r: String)
        requires
            self.wf(),
        ensures
            exists|n: nat| r@ == unit_name(name@, n) && first_free(self@, name@, n),
            !has_name(self@, r@),
    {
        let mut counter: usize = 0;
        loop
            invariant
                self.wf(),
                counter <= self@.len(),
                forall|m: nat| m < counter ==> has_name(self@, #[trigger] unit_name(name@, m)),
            decreases self@.len() - counter,
        {
            let candidate = format_unit_name(name.as_str(), counter);
            if self.position(&candidate).is_none() {
                assert(first_free(self@, name@, counter as nat));
                return candidate;
            }
            proof {
                lemma_taken_names_bound(self@, name@, counter as nat + 1);
                assert(self@.len() == self.entries.len());
            }
            counter = counter + 1;
        }
    }

    /// Copies of the entries marked for watching, in enumeration order.
    pub fn watch_list(&self) -> (r: Vec<RegistryEntry>)
        ensures
            views(r@) == watched(self@),
    {
        let mut list: Vec<RegistryEntry> = Vec::new();
        let mut i: usize = 0;
        while i < self.entries.len()
            invariant
                i <= self.entries.len(),
                views(list@) == watched(self@.subrange(0, i as int)),
            decreases self.entries.len() - i,
        {
            proof {
                broadcast use Seq::lemma_filter_push;

                assert(self@.subrange(0, i + 1) =~= self@.subrange(0, i as int).push(self@[i as int]));
            }
            if self.entries[i].watch {
                list.push(self.entries[i].clone());
            }
            assert(views(list@) =~= watched(self@.subrange(0, i + 1)));
            i = i + 1;
        }
        assert(self@.subrange(0, self@.len() as int) =~= self@);
        list
    }

    /// Sets the status of the entry named `name`.
    pub fn update_state(&mut self, name: String, status: UnitStatus) -> (r: Result<
        (),
        RegistryError,
    >)
        requires
            old(self).wf(),
        ensures
            final(self).wf(),
            r is Ok <==> has_name(old(self)@, name@),
            r is Ok ==> final(self)@ == with_status(old(self)@, name@, status),
            r is Err ==> final(self)@ == old(self)@ && r == Err::<(), RegistryError>(
                RegistryError::NotFound(Query::Name(name)),
            ),
    {
        match self.position(&name) {
            Some(i) => {
                proof {
                    law_update_status_only(self@, name@, status);
                }
                self.entries[i].status = status;
                assert(self@ =~= with_status(old(self)@, name@, status));
                Ok(())
            },
            None => Err(RegistryError::NotFound(Query::Name(name))),
        }
    }
}

} // verus!
