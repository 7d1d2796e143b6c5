//! The map between the names of the fields of an index and their 16-bit ids.

use vstd::prelude::*;
use vstd::string::*;
use crate::text::str_eq;

verus! {

/// The id of a field.
pub type FieldId = u16;

/// How many fields an index can name: every 16-bit id once.
pub const MAX_FIELDS: usize = 65536;

/// The names of the fields of an index. A field's id is the rank at which
/// its name was first inserted; names are never removed.
#[derive(Debug)]
pub struct FieldsIdsMap {
    names: Vec<String>,
}

/// The character sequences of a list of names.
pub open spec fn names_view(names: Seq<String>) -> Seq<Seq<char>> {
    Seq::new(names.len(), |i: int| names[i]@)
}

/// Whether no name occurs twice.
pub open spec fn distinct(names: Seq<Seq<char>>) -> bool {
    forall|i: int, j: int| 0 <= i < j < names.len() ==> names[i] != names[j]
}

/// The id of `name` among `names`, if it is there.
pub open spec fn spec_id(names: Seq<Seq<char>>, name: Seq<char>) -> Option<FieldId> {
    if exists|i: int| 0 <= i < names.len() && names[i] == name {
        Some((choose|i: int| 0 <= i < names.len() && names[i] == name) as FieldId)
    } else {
        None
    }
}

/// The names after `name` was asked for: unchanged where it is known or
/// every id is taken, else with `name` at the end.
pub open spec fn spec_names_after_insert(names: Seq<Seq<char>>, name: Seq<char>) -> Seq<
    Seq<char>,
> {
    if spec_id(names, name) is None && names.len() < MAX_FIELDS {
        names.push(name)
    } else {
        names
    }
}

/// The id that asking for `name` gives: its own where it is known, the
/// next free one where there is one, else none.
pub open spec fn spec_id_after_insert(names: Seq<Seq<char>>, name: Seq<char>) -> Option<FieldId> {
    match spec_id(names, name) {
        Some(id) => Some(id),
        None => if names.len() < MAX_FIELDS {
            Some(names.len() as FieldId)
        } else {
            None
        },
    }
}

impl View for FieldsIdsMap {
    type V = Seq<Seq<char>>;

    closed spec fn view(&self) -> Seq<Seq<char>> {
        names_view(self.names@)
    }
}

impl FieldsIdsMap {
    #[verifier::type_invariant]
    spec fn well_formed(&self) -> bool {
        self.names@.len() <= MAX_FIELDS && distinct(names_view(self.names@))
    }

    /// A map without any field.
    pub fn new() -> (map: FieldsIdsMap)
        ensures
            map@ == Seq::<Seq<char>>::empty(),
    {
        let map = FieldsIdsMap { names: Vec::new() };
        assert(map@ =~= Seq::<Seq<char>>::empty());
        map
    }

    /// The number of fields.
    pub fn len(&self) -> (n: usize)
        ensures
            n == self@.len(),
            n <= MAX_FIELDS,
    {
        proof {
            use_type_invariant(self);
        }
        self.names.len()
    }

    /// Whether the map names no field.
    pub fn is_empty(&self) -> (r: bool)
        ensures
            r == (self@.len() == 0),
    {
        self.names.len() == 0
    }

    /// The id of the field called `name`, if there is one.
    pub fn id(&self, name: &str) -> (r: Option<FieldId>)
        ensures
            r == spec_id(self@, name@),
            r matches Some(id) ==> id < self@.len() && self@[id as int] == name@,
            r is None ==> !self@.contains(name@),
    {
        proof {
            use_type_invariant(self);
        }
        let mut i: usize = 0;
        while i < self.names.len()
            invariant
                i <= self.names@.len() <= MAX_FIELDS,
                distinct(names_view(self.names@)),
                forall|k: int| 0 <= k < i ==> names_view(self.names@)[k] != name@,
            decreases self.names.len() - i,
        {
            if str_eq(self.names[i].as_str(), name) {
                proof {
                    let names = names_view(self.names@);
                    assert(names[i as int] == name@);
                    let c = choose|k: int| 0 <= k < names.len() && names[k] == name@;
                    assert(c == i) by {
                        if c < i {
                        } else if c > i {
                            assert(names[i as int] != names[c]);
                        }
                    }
                }
                return Some(i as u16);
            }
            i += 1;
        }
        proof {
            let names = names_view(self.names@);
            assert(forall|k: int| 0 <= k < names.len() ==> names[k] != name@);
        }
        None
    }

    /// The name of the field with the given id, if there is one.
    pub fn name(&self, id: FieldId) -> (r: Option<&str>)
        ensures
            r matches Some(name) ==> id < self@.len() && name@ == self@[id as int],
            r is None <==> id >= self@.len(),
    {
        if (id as usize) < self.names.len() {
            Some(self.names[id as usize].as_str())
        } else {
            None
        }
    }

    /// The id of the field called `name`, which is given the next free id
    /// if the map does not know it. `None` when every id is taken.
    pub fn insert(&mut self, name: &str) -> (r: Option<FieldId>)
        ensures
            r == spec_id_after_insert(old(self)@, name@),
            final(self)@ == spec_names_after_insert(old(self)@, name@),
    {
        proof {
            use_type_invariant(&*self);
        }
        match self.id(name) {
            Some(id) => Some(id),
            None => {
                let n = self.names.len();
                if n < MAX_FIELDS {
                    let ghost before = names_view(self.names@);
                    let mut names: Vec<String> = Vec::new();
                    core::mem::swap(&mut names, &mut self.names);
                    names.push(String::from_str(name));
                    proof {
                        let after = names_view(names@);
                        assert(after =~= before.push(name@));
                        assert(distinct(after)) by {
                            assert forall|i: int, j: int| 0 <= i < j < after.len() implies after[i]
                                != after[j] by {
                                if j == before.len() {
                                    assert(before[i] != name@);
                                } else {
                                    assert(before[i] != before[j]);
                                }
                            }
                        }
                    }
                    self.names = names;
                    Some(n as u16)
                } else {
                    None
                }
            },
        }
    }

    /// The same as [`FieldsIdsMap::insert`].
    pub fn id_or_insert(&mut self, name: &str) -> (r: Option<FieldId>)
        ensures
            r == spec_id_after_insert(old(self)@, name@),
            final(self)@ == spec_names_after_insert(old(self)@, name@),
    {
        self.insert(name)
    }
}

/// An id that was given stays: asking for another name changes no id.
pub proof fn lemma_insert_keeps_ids(names: Seq<Seq<char>>, name: Seq<char>, other: Seq<char>)
    requires
        distinct(names),
        spec_id(names, other) is Some,
    ensures
        spec_id(spec_names_after_insert(names, name), other) == spec_id(names, other),
{
    let after = spec_names_after_insert(names, name);
    let i = choose|i: int| 0 <= i < names.len() && names[i] == other;
    assert(after[i] == other);
    let j = choose|j: int| 0 <= j < after.len() && after[j] == other;
    if j != i {
        if j < names.len() {
            assert(names[j] == other);
            if i < j {
                assert(names[i] != names[j]);
            } else {
                assert(names[j] != names[i]);
            }
        } else {
            assert(after[j] == name);
            assert(spec_id(names, name) is None);
            assert(names[i] == name);
        }
    }
}

} // verus!
