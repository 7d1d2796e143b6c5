//! The facets of a document: the values of its leaves, each under the id
//! of its field.

use vstd::prelude::*;
use crate::extract::error::{ExtractError, Failure};
use crate::extract::perm_json_p::{
    leaves_of_value, select_field, spec_select_field, strs, views, walk_value,
};
use crate::extract::searchable::{field_views, FieldView, TopLevelField};
use crate::fields_ids_map::{
    spec_id_after_insert, spec_names_after_insert, FieldId, FieldsIdsMap,
};
use crate::json::{json_text_value, parse_json, Json, JsonView, Member, MemberView};

verus! {

/// A facet value: the id of the field of a leaf, and the value of the leaf.
#[derive(Debug, PartialEq, Eq)]
pub struct Facet {
    pub field_id: FieldId,
    pub value: Json,
}

/// What a [`Facet`] stands for.
pub struct FacetView {
    pub field_id: FieldId,
    pub value: JsonView,
}

impl View for Facet {
    type V = FacetView;

    open spec fn view(&self) -> FacetView {
        FacetView { field_id: self.field_id, value: self.value@ }
    }
}

/// The views of a list of facets.
pub open spec fn facet_views(facets: Seq<Facet>) -> Seq<FacetView> {
    Seq::new(facets.len(), |i: int| facets[i]@)
}

/// How far the extraction of facets has come.
pub struct FacetExtraction {
    pub names: Seq<Seq<char>>,
    pub facets: Seq<FacetView>,
    pub failure: Option<Failure>,
}

/// The extraction after the leaves from index `from` on: each leaf's key is
/// given a field id, which fails where every id is taken, and its value is
/// a facet of that field.
pub open spec fn spec_facets_of_leaves(leaves: Seq<MemberView>, from: nat, before: FacetExtraction)
    -> FacetExtraction
    decreases leaves.len() - from,
{
    if from >= leaves.len() {
        before
    } else {
        let leaf = leaves[from as int];
        match spec_id_after_insert(before.names, leaf.key) {
            None => FacetExtraction {
                names: before.names,
                facets: before.facets,
                failure: Some(Failure::AttributeLimitReached),
            },
            Some(field_id) => spec_facets_of_leaves(
                leaves,
                from + 1,
                FacetExtraction {
                    names: spec_names_after_insert(before.names, leaf.key),
                    facets: before.facets.push(FacetView { field_id, value: leaf.value }),
                    failure: None,
                },
            ),
        }
    }
}

/// The extraction after one top-level field: a field that the attributes
/// select must be JSON text, and its selected leaves give the facets.
pub open spec fn spec_facets_of_field(
    attributes: Seq<Seq<char>>,
    field: FieldView,
    before: FacetExtraction,
) -> FacetExtraction {
    if spec_select_field(field.name, Some(attributes), Seq::empty()) {
        match json_text_value(field.value) {
            None => FacetExtraction {
                names: before.names,
                facets: before.facets,
                failure: Some(Failure::InvalidJson),
            },
            Some(value) => spec_facets_of_leaves(
                leaves_of_value(value, Some(attributes), Seq::empty(), field.name, true),
                0,
                before,
            ),
        }
    } else {
        before
    }
}

/// The extraction after the fields from index `from` on, up to the first
/// that fails.
pub open spec fn spec_facets_of_fields(
    attributes: Seq<Seq<char>>,
    fields: Seq<FieldView>,
    from: nat,
    before: FacetExtraction,
) -> FacetExtraction
    decreases fields.len() - from,
{
    if from >= fields.len() {
        before
    } else {
        let next = spec_facets_of_field(attributes, fields[from as int], before);
        if next.failure is Some {
            next
        } else {
            spec_facets_of_fields(attributes, fields, from + 1, next)
        }
    }
}

/// The facets of a whole document, begun with the field names `names`.
pub open spec fn spec_extract_document_facets(
    attributes: Seq<Seq<char>>,
    fields: Seq<FieldView>,
    names: Seq<Seq<char>>,
) -> FacetExtraction {
    spec_facets_of_fields(
        attributes,
        fields,
        0,
        FacetExtraction { names, facets: Seq::empty(), failure: None },
    )
}

fn facets_of_leaves(leaves: Vec<Member>, field_id_map: &mut FieldsIdsMap, facets: &mut Vec<Facet>)
    -> (r: Result<(), ExtractError>)
    ensures
        ({
            let after = spec_facets_of_leaves(
                views(leaves@),
                0,
                FacetExtraction {
                    names: old(field_id_map)@,
                    facets: facet_views(old(facets)@),
                    failure: None,
                },
            );
            &&& final(field_id_map)@ == after.names
            &&& match r {
                Ok(()) => after.failure is None && facet_views(final(facets)@) == after.facets,
                Err(e) => after.failure == Some(e.spec_failure()),
            }
        }),
{
    let ghost all = views(leaves@);
    let ghost start = FacetExtraction {
        names: field_id_map@,
        facets: facet_views(facets@),
        failure: None,
    };
    let total: usize = leaves.len();
    let mut rest = leaves;
    // the leaves are taken from the last to the first, so the list is turned first
    let mut turned: Vec<Member> = Vec::new();
    while rest.len() > 0
        invariant
            rest@.len() + turned@.len() == total,
            all.len() == total,
            forall|k: int| 0 <= k < rest@.len() ==> (#[trigger] rest@[k])@ == all[k],
            forall|k: int|
                0 <= k < turned@.len() ==> (#[trigger] turned@[k])@ == all[total - 1 - k],
        decreases rest.len(),
    {
        let leaf = rest.pop().unwrap();
        turned.push(leaf);
    }
    let mut done: usize = 0;
    while turned.len() > 0
        invariant
            turned@.len() + done == total,
            all.len() == total,
            all == views(leaves@),
            start == (FacetExtraction {
                names: old(field_id_map)@,
                facets: facet_views(old(facets)@),
                failure: None,
            }),
            forall|k: int|
                0 <= k < turned@.len() ==> (#[trigger] turned@[k])@ == all[total - 1 - k],
            spec_facets_of_leaves(
                all,
                done as nat,
                FacetExtraction {
                    names: field_id_map@,
                    facets: facet_views(facets@),
                    failure: None,
                },
            ) == spec_facets_of_leaves(all, 0, start),
        decreases turned.len(),
    {
        let ghost last = turned@[turned@.len() - 1];
        assert(last@ == all[done as int]);
        let ghost reached = FacetExtraction {
            names: field_id_map@,
            facets: facet_views(facets@),
            failure: None,
        };
        assert(spec_facets_of_leaves(all, done as nat, reached) == match spec_id_after_insert(
            reached.names,
            all[done as int].key,
        ) {
            None => FacetExtraction {
                names: reached.names,
                facets: reached.facets,
                failure: Some(Failure::AttributeLimitReached),
            },
            Some(field_id) => spec_facets_of_leaves(
                all,
                (done + 1) as nat,
                FacetExtraction {
                    names: spec_names_after_insert(reached.names, all[done as int].key),
                    facets: reached.facets.push(
                        FacetView { field_id, value: all[done as int].value },
                    ),
                    failure: None,
                },
            ),
        });
        let leaf = turned.pop().unwrap();
        let field_id = match field_id_map.id_or_insert(leaf.key.as_str()) {
            Some(field_id) => field_id,
            None => {
                return Err(ExtractError::AttributeLimitReached);
            },
        };
        let facet = Facet { field_id, value: leaf.value };
        proof {
            assert(facet_views(facets@.push(facet)) =~= facet_views(facets@).push(facet@));
        }
        facets.push(facet);
        done += 1;
    }
    Ok(())
}

/// Extracts the facets of a document: the values of the leaves that the
/// attributes select, field by field and leaf by leaf, each under the id of
/// its field. Names that the map does not know are given the next field ids.
///
/// Fails with `AttributeLimitReached` where a leaf would need a field id
/// and none is left, and with `SerdeJson` where a selected field is no JSON
/// text; the map then holds the names given out before.
pub fn extract_document_facets(
    attributes_to_extract: &[&str],
    document: &Vec<TopLevelField>,
    field_id_map: &mut FieldsIdsMap,
) -> (r: Result<Vec<Facet>, ExtractError>)
    ensures
        ({
            let after = spec_extract_document_facets(
                strs(attributes_to_extract@),
                field_views(document@),
                old(field_id_map)@,
            );
            &&& final(field_id_map)@ == after.names
            &&& match r {
                Ok(facets) => after.failure is None && facet_views(facets@) == after.facets,
                Err(e) => after.failure == Some(e.spec_failure()),
            }
        }),
{
    let ghost attributes = strs(attributes_to_extract@);
    let ghost fields = field_views(document@);
    let ghost start = FacetExtraction {
        names: field_id_map@,
        facets: Seq::empty(),
        failure: None,
    };
    let none: Vec<&str> = Vec::new();
    assert(strs(none@) =~= Seq::<Seq<char>>::empty());
    let mut facets: Vec<Facet> = Vec::new();
    assert(facet_views(facets@) =~= Seq::<FacetView>::empty());
    let mut i: usize = 0;
    while i < document.len()
        invariant
            i <= document.len(),
            attributes == strs(attributes_to_extract@),
            fields == field_views(document@),
            strs(none@) == Seq::<Seq<char>>::empty(),
            start == (FacetExtraction {
                names: old(field_id_map)@,
                facets: Seq::empty(),
                failure: None,
            }),
            spec_facets_of_fields(
                attributes,
                fields,
                i as nat,
                FacetExtraction {
                    names: field_id_map@,
                    facets: facet_views(facets@),
                    failure: None,
                },
            ) == spec_facets_of_fields(attributes, fields, 0, start),
        decreases document.len() - i,
    {
        let field = &document[i];
        assert(fields[i as int] == field@);
        let ghost reached = FacetExtraction {
            names: field_id_map@,
            facets: facet_views(facets@),
            failure: None,
        };
        let ghost next = spec_facets_of_field(attributes, field@, reached);
        assert(spec_facets_of_fields(attributes, fields, i as nat, reached) == if next.failure
            is Some {
            next
        } else {
            spec_facets_of_fields(attributes, fields, (i + 1) as nat, next)
        });
        // a field is read when it is faceted or holds a faceted attribute
        if select_field(field.name.as_str(), Some(attributes_to_extract), none.as_slice()) {
            let value = match parse_json(field.value.as_str()) {
                Ok(value) => value,
                Err(e) => {
                    return Err(ExtractError::SerdeJson(e));
                },
            };
            let mut leaves: Vec<Member> = Vec::new();
            assert(views(leaves@) =~= Seq::<MemberView>::empty());
            walk_value(
                &value,
                Some(attributes_to_extract),
                none.as_slice(),
                field.name.as_str(),
                true,
                &mut leaves,
            );
            assert(views(leaves@) =~= leaves_of_value(
                value@,
                Some(attributes),
                Seq::empty(),
                field.name@,
                true,
            ));
            match facets_of_leaves(leaves, field_id_map, &mut facets) {
                Ok(()) => {},
                Err(e) => {
                    return Err(e);
                },
            }
        }
        i += 1;
    }
    Ok(facets)
}

} // verus!
