use meili_core::compat::{asc_ranking_rule, desc_ranking_rule};

#[test]
fn asc_rule_gives_its_field() {
    assert_eq!(asc_ranking_rule("asc(price)"), Some("price"));
    assert_eq!(asc_ranking_rule("asc()"), Some(""));
    assert_eq!(asc_ranking_rule("  asc(price) "), Some("price"));
    assert_eq!(asc_ranking_rule("asc(a)b)"), Some("a)b"));
    assert_eq!(asc_ranking_rule("asc(prix_é)"), Some("prix_é"));
}

#[test]
fn asc_rule_needs_its_brackets() {
    assert_eq!(asc_ranking_rule("price"), None);
    assert_eq!(asc_ranking_rule("asc(price"), None);
    assert_eq!(asc_ranking_rule(")asc(price"), None);
    assert_eq!(asc_ranking_rule("desc(price)"), None);
    assert_eq!(asc_ranking_rule(""), None);
    assert_eq!(asc_ranking_rule("asc"), None);
}

#[test]
fn desc_rule_gives_its_field() {
    assert_eq!(desc_ranking_rule("desc(price)"), Some("price"));
    assert_eq!(desc_ranking_rule("desc(release.date)"), Some("release.date"));
    assert_eq!(desc_ranking_rule("asc(price)"), None);
    assert_eq!(desc_ranking_rule("desc(price"), None);
}

#[test]
fn the_first_keyword_and_the_last_bracket_count() {
    assert_eq!(asc_ranking_rule("asc(asc(a))"), Some("asc(a)"));
    assert_eq!(desc_ranking_rule("xdesc(a)y)z"), Some("a)y"));
}
