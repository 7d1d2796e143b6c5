//! What a prompt template can name: the document, under `doc`, and its
//! fields, under `fields`.

use vstd::prelude::*;
use vstd::string::*;
use crate::fields_ids_map::{FieldId, FieldsIdsMap};
use crate::json::Member;
use crate::text::str_eq;

verus! {

/// A document as a template reads it: its top-level fields.
#[derive(Debug)]
pub struct Document {
    pub fields: Vec<Member>,
}

/// A field of an index, seen from a document.
#[derive(Debug)]
pub struct FieldValue<'a> {
    pub name: &'a str,
    pub fid: FieldId,
    pub document: &'a Document,
}

/// The fields of an index, seen from a document, in the order of their ids.
#[derive(Debug)]
pub struct Fields<'a>(pub Vec<FieldValue<'a>>);

impl<'a> Fields<'a> {
    /// Whether the fields are those that the map names, each with its id,
    /// all seen from `document`.
    pub open spec fn spec_is_for(&self, document: &Document, names: Seq<Seq<char>>) -> bool {
        &&& self.0@.len() == names.len()
        &&& forall|i: int|
            0 <= i < names.len() ==> (#[trigger] self.0@[i]).name@ == names[i] && self.0@[i].fid
                == i && self.0@[i].document == document
    }

    /// The fields that the map names, seen from `document`.
    pub fn new(document: &'a Document, field_id_map: &'a FieldsIdsMap) -> (fields: Self)
        ensures
            fields.spec_is_for(document, field_id_map@),
    {
        let mut list: Vec<FieldValue<'a>> = Vec::new();
        let n = field_id_map.len();
        let mut i: usize = 0;
        while i < n
            invariant
                i <= n,
                n == field_id_map@.len(),
                n <= 65536,
                list@.len() == i,
                forall|k: int|
                    0 <= k < i ==> (#[trigger] list@[k]).name@ == field_id_map@[k] && list@[k].fid
                        == k && list@[k].document == document,
            decreases n - i,
        {
            match field_id_map.name(i as u16) {
                Some(name) => {
                    list.push(FieldValue { name, fid: i as u16, document });
                },
                None => {
                    assert(false);
                },
            }
            i += 1;
        }
        Fields(list)
    }
}

/// What a value is asked about when a template is rendered.
#[derive(Debug, Clone, Copy, PartialEq, Eq, Structural)]
pub enum State {
    Truthy,
    DefaultValue,
    Empty,
    Blank,
}

/// A value that the context gives out.
#[derive(Debug)]
pub enum ContextValue<'s, 'a> {
    Document(&'s Document),
    Fields(&'s Fields<'a>),
}

/// The context of a prompt: an object of two members, `doc` and `fields`.
#[derive(Debug)]
pub struct Context<'a> {
    pub document: &'a Document,
    pub fields: Fields<'a>,
}

/// The keys of a context, in order.
pub open spec fn spec_keys() -> Seq<Seq<char>> {
    seq!["doc"@, "fields"@]
}

impl<'a> Context<'a> {
    pub fn new(document: &'a Document, field_id_map: &'a FieldsIdsMap) -> (context: Self)
        ensures
            context.document == document,
            context.fields.spec_is_for(document, field_id_map@),
    {
        Self { document, fields: Fields::new(document, field_id_map) }
    }

    /// The number of members.
    pub fn size(&self) -> (n: i64)
        ensures
            n == spec_keys().len(),
    {
        2
    }

    /// The keys of the members, in order.
    pub fn keys(&self) -> (keys: Vec<&'static str>)
        ensures
            keys@.len() == 2,
            keys@[0]@ == spec_keys()[0],
            keys@[1]@ == spec_keys()[1],
    {
        let mut keys: Vec<&'static str> = Vec::new();
        keys.push("doc");
        keys.push("fields");
        keys
    }

    /// The members, in the order of their keys.
    pub fn values<'s>(&'s self) -> (values: Vec<ContextValue<'s, 'a>>)
        ensures
            values@.len() == 2,
            values@[0] == ContextValue::Document(self.document),
            values@[1] == ContextValue::Fields(&self.fields),
    {
        let mut values: Vec<ContextValue<'s, 'a>> = Vec::new();
        values.push(ContextValue::Document(self.document));
        values.push(ContextValue::Fields(&self.fields));
        values
    }

    /// Whether the context has a member under this key.
    pub fn contains_key(&self, index: &str) -> (r: bool)
        ensures
            r == spec_keys().contains(index@),
    {
        let r = str_eq(index, "doc") || str_eq(index, "fields");
        proof {
            if r {
                if index@ == "doc"@ {
                    assert(spec_keys()[0] == index@);
                } else {
                    assert(spec_keys()[1] == index@);
                }
            }
        }
        r
    }

    /// The member under this key, if there is one.
    pub fn get<'s>(&'s self, index: &str) -> (r: Option<ContextValue<'s, 'a>>)
        ensures
            r is Some == spec_keys().contains(index@),
            index@ == "doc"@ ==> r == Some(ContextValue::Document(self.document)),
            index@ != "doc"@ && index@ == "fields"@ ==> r == Some(
                ContextValue::Fields(&self.fields),
            ),
    {
        if str_eq(index, "doc") {
            assert(spec_keys()[0] == index@);
            Some(ContextValue::Document(self.document))
        } else if str_eq(index, "fields") {
            assert(spec_keys()[1] == index@);
            Some(ContextValue::Fields(&self.fields))
        } else {
            None
        }
    }

    /// The name of the type of a context in a template.
    pub fn type_label(&self) -> (name: &'static str)
        ensures
            name@ == "object"@,
    {
        "object"
    }

    /// A context is truthy, and neither the default value, nor empty, nor blank.
    pub fn query_state(&self, state: State) -> (r: bool)
        ensures
            r == (state == State::Truthy),
    {
        match state {
            State::Truthy => true,
            State::DefaultValue | State::Empty | State::Blank => false,
        }
    }
}

} // verus!
