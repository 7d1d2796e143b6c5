//! Rules that give the languages in which the text of a field is read.

use vstd::prelude::*;
use crate::text::{chars_of, matches_at, occurs_at, starts_with};

verus! {

/// The languages to expect in the fields whose name matches one of the patterns.
pub struct LocalizedAttributesRule {
    pub attribute_patterns: Vec<String>,
    pub locales: Vec<charabia::Language>,
}

/// Whether `part` stands somewhere in `text`.
pub open spec fn spec_contains(text: Seq<char>, part: Seq<char>) -> bool {
    exists|at: int| #[trigger] occurs_at(text, part, at)
}

/// Whether a name matches a pattern. `*` matches every name; a pattern with
/// `*` at both ends matches the names that hold what is between them, one
/// with `*` at its start those that end with the rest, one with `*` at its
/// end those that start with the rest; any other pattern matches itself.
pub open spec fn spec_match_pattern(pattern: Seq<char>, name: Seq<char>) -> bool {
    if pattern == seq!['*'] {
        true
    } else if pattern.len() >= 2 && pattern[0] == '*' && pattern.last() == '*' {
        spec_contains(name, pattern.subrange(1, pattern.len() - 1))
    } else if pattern.len() >= 1 && pattern[0] == '*' {
        occurs_at(name, pattern.subrange(1, pattern.len() as int), name.len() - (pattern.len() - 1))
    } else if pattern.len() >= 1 && pattern.last() == '*' {
        pattern.subrange(0, pattern.len() - 1).is_prefix_of(name)
    } else {
        pattern == name
    }
}

/// The character sequences of a list of patterns.
pub open spec fn patterns_view(patterns: Seq<String>) -> Seq<Seq<char>> {
    Seq::new(patterns.len(), |i: int| patterns[i]@)
}

/// Whether a name matches one of the patterns.
pub open spec fn spec_match_any(patterns: Seq<Seq<char>>, name: Seq<char>) -> bool {
    exists|i: int| 0 <= i < patterns.len() && spec_match_pattern(#[trigger] patterns[i], name)
}

/// Whether `part` stands somewhere in `text`.
fn contains(text: &[char], part: &[char]) -> (r: bool)
    ensures
        r == spec_contains(text@, part@),
{
    let mut at: usize = 0;
    while at < text.len()
        invariant
            at <= text.len(),
            forall|k: int| 0 <= k < at ==> !occurs_at(text@, part@, k),
        decreases text.len() - at,
    {
        if matches_at(text, part, at) {
            return true;
        }
        at += 1;
    }
    if matches_at(text, part, at) {
        return true;
    }
    assert forall|k: int| !#[trigger] occurs_at(text@, part@, k) by {
        if 0 <= k && k + part@.len() <= text@.len() {
            assert(k <= at);
        }
    }
    false
}

/// Whether a name matches a pattern.
pub fn match_pattern(pattern: &str, name: &str) -> (r: bool)
    ensures
        r == spec_match_pattern(pattern@, name@),
{
    let p = chars_of(pattern);
    let n = chars_of(name);
    let len = p.len();
    if len == 1 && p[0] == '*' {
        assert(p@ =~= seq!['*']);
        true
    } else if len >= 2 && p[0] == '*' && p[len - 1] == '*' {
        let middle = vstd::slice::slice_subrange(p.as_slice(), 1, len - 1);
        contains(n.as_slice(), middle)
    } else if len >= 1 && p[0] == '*' {
        let tail = vstd::slice::slice_subrange(p.as_slice(), 1, len);
        if tail.len() <= n.len() {
            matches_at(n.as_slice(), tail, n.len() - tail.len())
        } else {
            false
        }
    } else if len >= 1 && p[len - 1] == '*' {
        let head = vstd::slice::slice_subrange(p.as_slice(), 0, len - 1);
        starts_with(n.as_slice(), head)
    } else {
        let same = p.len() == n.len() && starts_with(n.as_slice(), p.as_slice());
        proof {
            if same {
                assert(n@.subrange(0, p@.len() as int) =~= n@);
            }
        }
        same
    }
}

impl LocalizedAttributesRule {
    pub fn new(attribute_patterns: Vec<String>, locales: Vec<charabia::Language>) -> (rule: Self)
        ensures
            rule.attribute_patterns == attribute_patterns,
            rule.locales == locales,
    {
        LocalizedAttributesRule { attribute_patterns, locales }
    }

    /// Whether the rule speaks of the field with this name.
    pub open spec fn spec_match_str(&self, name: Seq<char>) -> bool {
        spec_match_any(patterns_view(self.attribute_patterns@), name)
    }

    /// Whether the rule speaks of the field with this name.
    pub fn match_str(&self, name: &str) -> (r: bool)
        ensures
            r == self.spec_match_str(name@),
    {
        let mut i: usize = 0;
        while i < self.attribute_patterns.len()
            invariant
                i <= self.attribute_patterns.len(),
                forall|k: int|
                    0 <= k < i ==> !spec_match_pattern(
                        #[trigger] patterns_view(self.attribute_patterns@)[k],
                        name@,
                    ),
            decreases self.attribute_patterns.len() - i,
        {
            if match_pattern(self.attribute_patterns[i].as_str(), name) {
                assert(spec_match_pattern(patterns_view(self.attribute_patterns@)[i as int], name@));
                return true;
            }
            i += 1;
        }
        false
    }

    /// The languages of the rule.
    pub fn locales(&self) -> (l: &[charabia::Language])
        ensures
            l@ == self.locales@,
    {
        self.locales.as_slice()
    }
}

/// The languages of the first rule that speaks of the field, if one does.
pub open spec fn spec_locales(rules: Seq<LocalizedAttributesRule>, name: Seq<char>) -> Option<
    Seq<charabia::Language>,
> {
    first_match(rules, 0, name)
}

/// The languages of the first rule from `from` on that speaks of the field.
pub open spec fn first_match(rules: Seq<LocalizedAttributesRule>, from: nat, name: Seq<char>)
    -> Option<Seq<charabia::Language>>
    decreases rules.len() - from,
{
    if from >= rules.len() {
        None
    } else if rules[from as int].spec_match_str(name) {
        Some(rules[from as int].locales@)
    } else {
        first_match(rules, from + 1, name)
    }
}

/// The languages of the first rule that speaks of the field, if one does.
pub fn locales_of<'a>(rules: &'a [LocalizedAttributesRule], name: &str) -> (l: Option<
    &'a [charabia::Language],
>)
    ensures
        crate::extract::tokens::languages(l) == spec_locales(rules@, name@),
{
    let mut i: usize = 0;
    while i < rules.len()
        invariant
            i <= rules.len(),
            first_match(rules@, i as nat, name@) == first_match(rules@, 0, name@),
        decreases rules.len() - i,
    {
        if rules[i].match_str(name) {
            return Some(rules[i].locales());
        }
        i += 1;
    }
    None
}

} // verus!
