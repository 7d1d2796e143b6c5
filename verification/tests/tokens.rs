use meili_core::extract::field_words::tokenize_leaf;
use meili_core::extract::tokens::{
    is_separator, is_whitespace, process_tokens, saturating_add, trim, Positioned, SeparatorKind, Token,
    TokenKind, MAX_DISTANCE, MAX_WORD_LENGTH,
};
use meili_core::json::{Json, Member};
use std::collections::HashMap;

fn word(lemma: &str) -> Token {
    Token { kind: TokenKind::Word, lemma: lemma.to_string() }
}

fn stop(lemma: &str) -> Token {
    Token { kind: TokenKind::StopWord, lemma: lemma.to_string() }
}

fn soft() -> Token {
    Token { kind: TokenKind::Separator(SeparatorKind::Soft), lemma: " ".to_string() }
}

fn hard() -> Token {
    Token { kind: TokenKind::Separator(SeparatorKind::Hard), lemma: ". ".to_string() }
}

fn at(position: u32, lemma: &str) -> Positioned {
    Positioned { position, lemma: lemma.to_string() }
}

#[test]
fn the_first_word_stands_at_the_offset() {
    assert_eq!(MAX_DISTANCE, 8);
    assert_eq!(process_tokens(0, &vec![word("a")]), vec![at(0, "a")]);
    assert_eq!(process_tokens(5, &vec![word("a")]), vec![at(5, "a")]);
    // leading separators are left out
    assert_eq!(process_tokens(5, &vec![hard(), soft(), word("a")]), vec![at(5, "a")]);
    assert_eq!(process_tokens(5, &vec![]), vec![]);
    assert_eq!(process_tokens(5, &vec![soft(), hard()]), vec![]);
}

#[test]
fn soft_separators_count_one_and_hard_ones_the_distance() {
    assert_eq!(
        process_tokens(0, &vec![word("a"), soft(), word("b"), hard(), word("c")]),
        vec![at(0, "a"), at(1, "b"), at(9, "c")]
    );
    // words without a separator between them are one apart
    assert_eq!(process_tokens(0, &vec![word("a"), word("b")]), vec![at(0, "a"), at(1, "b")]);
}

#[test]
fn separators_in_a_row_collapse() {
    assert_eq!(
        process_tokens(0, &vec![word("a"), soft(), soft(), soft(), word("b")]),
        vec![at(0, "a"), at(1, "b")]
    );
    assert_eq!(
        process_tokens(0, &vec![word("a"), hard(), hard(), word("b")]),
        vec![at(0, "a"), at(8, "b")]
    );
    // one hard separator among soft ones makes the run hard
    assert_eq!(
        process_tokens(0, &vec![word("a"), soft(), hard(), soft(), word("b")]),
        vec![at(0, "a"), at(8, "b")]
    );
}

#[test]
fn stop_words_move_the_position_and_are_left_out() {
    assert_eq!(
        process_tokens(0, &vec![word("a"), soft(), stop("the"), soft(), word("b")]),
        vec![at(0, "a"), at(2, "b")]
    );
    assert_eq!(process_tokens(3, &vec![stop("the"), word("b")]), vec![at(4, "b")]);
}

#[test]
fn tokens_without_a_lemma_do_not_count() {
    assert_eq!(
        process_tokens(0, &vec![word("a"), soft(), word(""), soft(), word("b")]),
        vec![at(0, "a"), at(1, "b")]
    );
    let unknown = Token { kind: TokenKind::Unknown, lemma: "?".to_string() };
    assert_eq!(process_tokens(0, &vec![unknown, word("b")]), vec![at(0, "b")]);
}

#[test]
fn positions_are_held_at_the_largest() {
    assert_eq!(saturating_add(1, 2), 3);
    assert_eq!(saturating_add(u32::MAX - 1, 8), u32::MAX);
    assert_eq!(saturating_add(u32::MAX, 0), u32::MAX);
    assert_eq!(
        process_tokens(u32::MAX - 1, &vec![word("a"), hard(), word("b")]),
        vec![at(u32::MAX - 1, "a"), at(u32::MAX, "b")]
    );
}

#[test]
fn separators_are_told_apart() {
    assert!(is_separator(&soft()));
    assert!(is_separator(&hard()));
    assert!(!is_separator(&word("a")));
    assert!(!is_separator(&stop("a")));
}

fn leaf(key: &str, value: Json) -> Member {
    Member { key: key.to_string(), value }
}

#[test]
fn the_leaves_of_a_field_are_a_distance_apart() {
    let mut builder = charabia::TokenizerBuilder::default();
    let tokenizer = builder.build();
    let mut positions = HashMap::new();
    let mut words = vec![];
    tokenize_leaf(&tokenizer, None, 1000, 3, &leaf("tags", Json::String("good boy".to_string())), &mut positions, &mut words);
    assert_eq!(positions.get(&3), Some(&1));
    tokenize_leaf(&tokenizer, None, 1000, 3, &leaf("tags", Json::Number("12.5".to_string())), &mut positions, &mut words);
    assert_eq!(positions.get(&3), Some(&9));
    tokenize_leaf(&tokenizer, None, 1000, 3, &leaf("tags", Json::Bool(true)), &mut positions, &mut words);
    assert_eq!(positions.get(&3), Some(&17));
    tokenize_leaf(&tokenizer, None, 1000, 4, &leaf("other", Json::String("  ".to_string())), &mut positions, &mut words);
    assert_eq!(positions.get(&4), Some(&0));
    let found: Vec<(u16, u16, String)> =
        words.into_iter().map(|w| (w.field_id, w.position, w.word)).collect();
    assert_eq!(
        found,
        vec![(3, 0, "good".to_string()), (3, 1, "boy".to_string()), (3, 9, "12.5".to_string())]
    );
}

#[test]
fn long_words_are_dropped() {
    let mut builder = charabia::TokenizerBuilder::default();
    let tokenizer = builder.build();
    let mut positions = HashMap::new();
    let mut words = vec![];
    let long = "a".repeat(MAX_WORD_LENGTH + 1);
    let fits = "b".repeat(MAX_WORD_LENGTH);
    let text = format!("{} {} c", long, fits);
    tokenize_leaf(&tokenizer, None, 1000, 0, &leaf("t", Json::String(text)), &mut positions, &mut words);
    let found: Vec<(u16, String)> = words.into_iter().map(|w| (w.position, w.word)).collect();
    assert_eq!(found, vec![(1, fits), (2, "c".to_string())]);
}

#[test]
fn positions_beyond_sixteen_bits_are_not_given_out() {
    let mut builder = charabia::TokenizerBuilder::default();
    let tokenizer = builder.build();
    let mut positions = HashMap::new();
    positions.insert(0u16, 65535u32 - 8);
    let mut words = vec![];
    tokenize_leaf(&tokenizer, None, 100_000, 0, &leaf("t", Json::String("a b".to_string())), &mut positions, &mut words);
    let found: Vec<(u16, String)> = words.into_iter().map(|w| (w.position, w.word)).collect();
    assert_eq!(found, vec![(65535, "a".to_string())]);
    assert_eq!(positions.get(&0), Some(&65536));
}

#[test]
fn the_characters_that_are_trimmed() {
    let white: Vec<u32> = (0x09..=0x0d)
        .chain([0x20, 0x85, 0xa0, 0x1680])
        .chain(0x2000..=0x200a)
        .chain([0x2028, 0x2029, 0x202f, 0x205f, 0x3000])
        .collect();
    assert_eq!(white.len(), 25);
    for n in 0..=0x10ffffu32 {
        if let Some(c) = char::from_u32(n) {
            let text = format!("{c}x{c}");
            let expected = if white.contains(&n) { "x" } else { text.as_str() };
            assert_eq!(trim(&text), expected, "U+{n:04X}");
            assert_eq!(trim(&text), text.trim(), "U+{n:04X}");
            assert_eq!(is_whitespace(c), c.is_whitespace(), "U+{n:04X}");
        }
    }
}

#[test]
fn white_space_is_trimmed_at_both_ends() {
    assert_eq!(trim("  a b \n"), "a b");
    assert_eq!(trim("\u{3000}é\u{a0}\t"), "é");
    assert_eq!(trim("   "), "");
    assert_eq!(trim(""), "");
    assert_eq!(trim("a"), "a");
    assert_eq!(trim("\u{200b}a"), "\u{200b}a");
}
