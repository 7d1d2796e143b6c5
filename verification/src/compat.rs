//! Readers of the forms that settings had in earlier dumps.

use vstd::prelude::*;
use vstd::string::*;
use crate::text::{chars_of, matches_at, occurs_at};

verus! {

/// A reader of an earlier dump, seen through the current one.
pub struct Compat<From: ?Sized> {
    pub from: Box<From>,
}

/// `pattern` stands in `text` at `at` and nowhere before.
pub open spec fn is_first_occurrence(text: Seq<char>, pattern: Seq<char>, at: int) -> bool {
    occurs_at(text, pattern, at) && forall|k: int| 0 <= k < at ==> !occurs_at(text, pattern, k)
}

/// A closing bracket stands in `text` at `at`, at or after `from`, and none after it.
pub open spec fn is_last_closing(text: Seq<char>, from: int, at: int) -> bool {
    from <= at < text.len() && text[at] == ')' && forall|k: int|
        at < k < text.len() ==> text[k] != ')'
}

/// `field` is what stands in `text` between the first `keyword` and the
/// last closing bracket after it.
pub open spec fn is_ranking_rule_field(text: Seq<char>, keyword: Seq<char>, field: Seq<char>)
    -> bool {
    exists|i: int, j: int|
        is_first_occurrence(text, keyword, i) && #[trigger] is_last_closing(
            text,
            i + keyword.len(),
            j,
        ) && field == text.subrange(i + keyword.len(), j)
}

/// The field of a ranking rule written as `keyword`, the field and a
/// closing bracket, if `text` is of that form.
fn ranking_rule<'a>(text: &'a str, keyword: &str) -> (field: Option<&'a str>)
    ensures
        match field {
            Some(name) => is_ranking_rule_field(text@, keyword@, name@),
            None => forall|name: Seq<char>| !is_ranking_rule_field(text@, keyword@, name),
        },
{
    let chars = chars_of(text);
    let pattern = chars_of(keyword);
    let mut i: usize = 0;
    while i < chars.len() && !matches_at(chars.as_slice(), pattern.as_slice(), i)
        invariant
            i <= chars.len(),
            forall|k: int| 0 <= k < i ==> !occurs_at(chars@, pattern@, k),
        decreases chars.len() - i,
    {
        i += 1;
    }
    let found = matches_at(chars.as_slice(), pattern.as_slice(), i);
    if !found {
        assert forall|name: Seq<char>| !is_ranking_rule_field(text@, keyword@, name) by {
            assert forall|a: int| !occurs_at(text@, keyword@, a) by {
                if 0 <= a && a + keyword@.len() <= text@.len() {
                    assert(a <= i);
                }
            }
        }
        return None;
    }
    assert(is_first_occurrence(text@, keyword@, i as int));
    let start: usize = i + pattern.len();
    let mut j: usize = chars.len();
    while j > start
        invariant
            start <= j <= chars.len(),
            chars@ == text@,
            pattern@ == keyword@,
            start == i + pattern@.len(),
            is_first_occurrence(text@, keyword@, i as int),
            forall|k: int| j <= k < chars.len() ==> chars@[k] != ')',
        decreases j,
    {
        if chars[j - 1] == ')' {
            assert(is_last_closing(text@, start as int, j - 1));
            return Some(text.substring_char(start, j - 1));
        }
        j -= 1;
    }
    assert forall|name: Seq<char>| !is_ranking_rule_field(text@, keyword@, name) by {
        assert forall|a: int, b: int|
            !(is_first_occurrence(text@, keyword@, a) && #[trigger] is_last_closing(
                text@,
                a + keyword@.len(),
                b,
            )) by {
            if is_first_occurrence(text@, keyword@, a) {
                assert(a == i);
            }
        }
    }
    None
}

/// Parses the first form of the ascending ranking rule, `asc(price)`, and
/// returns the name of the field.
pub fn asc_ranking_rule(text: &str) -> (field: Option<&str>)
    ensures
        match field {
            Some(name) => is_ranking_rule_field(text@, "asc("@, name@),
            None => forall|name: Seq<char>| !is_ranking_rule_field(text@, "asc("@, name),
        },
{
    ranking_rule(text, "asc(")
}

/// Parses the first form of the descending ranking rule, `desc(price)`, and
/// returns the name of the field.
pub fn desc_ranking_rule(text: &str) -> (field: Option<&str>)
    ensures
        match field {
            Some(name) => is_ranking_rule_field(text@, "desc("@, name@),
            None => forall|name: Seq<char>| !is_ranking_rule_field(text@, "desc("@, name),
        },
{
    ranking_rule(text, "desc(")
}

} // verus!
