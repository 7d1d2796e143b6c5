//! The tokens of a text and the positions of its words.
//!
//! A text is cut into tokens by the tokenizer; the words among them are then
//! given positions that grow by one over a soft separator and by
//! [`MAX_DISTANCE`] over a hard one.

use vstd::prelude::*;
use vstd::string::*;

verus! {

/// The distance between two words that a hard separator parts.
pub const MAX_DISTANCE: u32 = 8;

/// The longest word, in bytes, that is kept.
pub const MAX_WORD_LENGTH: usize = 250;

/// The kind of a separator: a hard one parts two contexts (two sentences),
/// a soft one parts two words of one context.
#[derive(Debug, Clone, Copy, PartialEq, Eq, Structural)]
pub enum SeparatorKind {
    Hard,
    Soft,
}

/// The kind of a token.
#[derive(Debug, Clone, Copy, PartialEq, Eq, Structural)]
pub enum TokenKind {
    Word,
    StopWord,
    Separator(SeparatorKind),
    Unknown,
}

/// A token: its kind and its normalized text.
#[derive(Debug, PartialEq, Eq)]
pub struct Token {
    pub kind: TokenKind,
    pub lemma: String,
}

/// What a [`Token`] stands for.
pub struct TokenView {
    pub kind: TokenKind,
    pub lemma: Seq<char>,
}

impl View for Token {
    type V = TokenView;

    open spec fn view(&self) -> TokenView {
        TokenView { kind: self.kind, lemma: self.lemma@ }
    }
}

/// The views of a list of tokens.
pub open spec fn token_views(tokens: Seq<Token>) -> Seq<TokenView> {
    Seq::new(tokens.len(), |i: int| tokens[i]@)
}

#[verifier::external_type_specification]
#[verifier::external_body]
pub struct ExTokenizer<'tb>(charabia::Tokenizer<'tb>);

#[verifier::external_type_specification]
#[verifier::external_body]
pub struct ExLanguage(charabia::Language);

/// The languages of an optional allow list.
pub open spec fn languages(locales: Option<&[charabia::Language]>) -> Option<
    Seq<charabia::Language>,
> {
    match locales {
        Some(l) => Some(l@),
        None => None,
    }
}

/// The tokens that the tokenizer cuts `text` into when the detection of the
/// language is held to `locales`.
pub uninterp spec fn charabia_tokens(
    tokenizer: &charabia::Tokenizer,
    text: Seq<char>,
    locales: Option<Seq<charabia::Language>>,
) -> Seq<TokenView>;

/// Calls `charabia::Tokenizer::tokenize_with_allow_list` and collects the
/// tokens it yields, each with its kind and its lemma. The tokens are a
/// function of the tokenizer's settings, the text and the allow list.
#[verifier::external_body]
pub(crate) fn tokenize_with_allow_list(
    tokenizer: &charabia::Tokenizer,
    text: &str,
    locales: Option<&[charabia::Language]>,
) -> (tokens: Vec<Token>)
    ensures
        token_views(tokens@) == charabia_tokens(tokenizer, text@, languages(locales)),
{
    let tokens = tokenizer.tokenize_with_allow_list(text, locales);
    tokens.map(|t| Token {
        kind: match t.kind {
            charabia::TokenKind::Word => TokenKind::Word,
            charabia::TokenKind::StopWord => TokenKind::StopWord,
            charabia::TokenKind::Separator(charabia::SeparatorKind::Hard) => TokenKind::Separator(SeparatorKind::Hard),
            charabia::TokenKind::Separator(charabia::SeparatorKind::Soft) => TokenKind::Separator(SeparatorKind::Soft),
            charabia::TokenKind::Unknown => TokenKind::Unknown,
        },
        lemma: t.lemma().to_string(),
    }).collect()
}

/// Whether a character is white space: whether it has the property
/// `White_Space` of Unicode. These are the controls from the tabulation to
/// the carriage return, the space, the next line, the no-break space, the
/// ogham space mark, the spaces from the en quad to the hair space, the
/// line and the paragraph separator, the narrow no-break space, the medium
/// mathematical space and the ideographic space.
pub open spec fn char_is_whitespace(c: char) -> bool {
    let n = c as u32;
    ||| 0x0009 <= n <= 0x000d
    ||| n == 0x0020
    ||| n == 0x0085
    ||| n == 0x00a0
    ||| n == 0x1680
    ||| 0x2000 <= n <= 0x200a
    ||| n == 0x2028
    ||| n == 0x2029
    ||| n == 0x202f
    ||| n == 0x205f
    ||| n == 0x3000
}

/// Whether a character is white space.
pub fn is_whitespace(c: char) -> (r: bool)
    ensures
        r == char_is_whitespace(c),
{
    let n: u32 = c as u32;
    (0x0009 <= n && n <= 0x000d) || n == 0x0020 || n == 0x0085 || n == 0x00a0 || n == 0x1680 || (
    0x2000 <= n && n <= 0x200a) || n == 0x2028 || n == 0x2029 || n == 0x202f || n == 0x205f || n
        == 0x3000
}

/// The index of the first character from `from` on that is no white space,
/// or the length of the text where there is none.
pub open spec fn spec_trim_start(text: Seq<char>, from: nat) -> nat
    decreases text.len() - from,
{
    if from < text.len() && char_is_whitespace(text[from as int]) {
        spec_trim_start(text, from + 1)
    } else {
        from
    }
}

/// The index after the last character before `end` that is no white space,
/// or `start` where there is none after `start`.
pub open spec fn spec_trim_end(text: Seq<char>, start: nat, end: nat) -> nat
    decreases end,
{
    if start < end && end <= text.len() && char_is_whitespace(text[end - 1]) {
        spec_trim_end(text, start, (end - 1) as nat)
    } else {
        end
    }
}

/// `text` without the white space at its two ends.
pub open spec fn spec_trim(text: Seq<char>) -> Seq<char> {
    let start = spec_trim_start(text, 0);
    text.subrange(start as int, spec_trim_end(text, start, text.len()) as int)
}

/// The text without the white space at its two ends.
pub fn trim(text: &str) -> (trimmed: &str)
    ensures
        trimmed@ == spec_trim(text@),
{
    let chars = crate::text::chars_of(text);
    let mut start: usize = 0;
    while start < chars.len() && is_whitespace(chars[start])
        invariant
            start <= chars.len(),
            chars@ == text@,
            spec_trim_start(text@, start as nat) == spec_trim_start(text@, 0),
        decreases chars.len() - start,
    {
        start += 1;
    }
    let mut end: usize = chars.len();
    while start < end && is_whitespace(chars[end - 1])
        invariant
            start <= end <= chars.len(),
            chars@ == text@,
            spec_trim_end(text@, start as nat, end as nat) == spec_trim_end(
                text@,
                start as nat,
                text@.len(),
            ),
        decreases end,
    {
        end -= 1;
    }
    text.substring_char(start, end)
}

/// `a + b`, or the largest position where the sum is larger.
pub open spec fn spec_saturating_add(a: u32, b: u32) -> u32 {
    if a + b > u32::MAX {
        u32::MAX
    } else {
        (a + b) as u32
    }
}

/// `a + b`, or the largest position where the sum is larger.
pub fn saturating_add(a: u32, b: u32) -> (sum: u32)
    ensures
        sum == spec_saturating_add(a, b),
{
    if a > u32::MAX - b {
        u32::MAX
    } else {
        a + b
    }
}

/// What the walk over the tokens of a text remembers: the position of the
/// last word and the kind of the last token that counted.
pub struct Scan {
    pub offset: u32,
    pub prev_kind: Option<TokenKind>,
}

/// Whether a token moves the position: a word or a stop word with a lemma.
pub open spec fn is_positioned(token: TokenView) -> bool {
    (token.kind == TokenKind::Word || token.kind == TokenKind::StopWord) && token.lemma.len() > 0
}

/// The step that a positioned token takes after a token of kind `prev_kind`.
pub open spec fn step_after(prev_kind: Option<TokenKind>) -> u32 {
    match prev_kind {
        Some(TokenKind::Separator(SeparatorKind::Hard)) => MAX_DISTANCE,
        Some(_) => 1,
        None => 0,
    }
}

/// The memory of the walk after `token`.
pub open spec fn scan_next(state: Scan, token: TokenView) -> Scan {
    if is_positioned(token) {
        Scan {
            offset: spec_saturating_add(state.offset, step_after(state.prev_kind)),
            prev_kind: Some(token.kind),
        }
    } else if token.kind == TokenKind::Separator(SeparatorKind::Hard) {
        Scan { offset: state.offset, prev_kind: Some(token.kind) }
    } else if token.kind == TokenKind::Separator(SeparatorKind::Soft) && state.prev_kind != Some(
        TokenKind::Separator(SeparatorKind::Hard),
    ) {
        Scan { offset: state.offset, prev_kind: Some(token.kind) }
    } else {
        state
    }
}

/// Whether a token comes out of the walk: a word with a lemma.
pub open spec fn is_emitted(token: TokenView) -> bool {
    token.kind == TokenKind::Word && token.lemma.len() > 0
}

/// A word with its position.
pub struct PositionedView {
    pub position: u32,
    pub lemma: Seq<char>,
}

/// A word with its position.
#[derive(Debug, PartialEq, Eq)]
pub struct Positioned {
    pub position: u32,
    pub lemma: String,
}

impl View for Positioned {
    type V = PositionedView;

    open spec fn view(&self) -> PositionedView {
        PositionedView { position: self.position, lemma: self.lemma@ }
    }
}

/// The views of a list of positioned words.
pub open spec fn positioned_views(words: Seq<Positioned>) -> Seq<PositionedView> {
    Seq::new(words.len(), |i: int| words[i]@)
}

/// The index of the first token that is no separator, or the number of
/// tokens where there is none.
pub open spec fn first_non_separator(tokens: Seq<TokenView>, from: nat) -> nat
    decreases tokens.len() - from,
{
    if from < tokens.len() && tokens[from as int].kind is Separator {
        first_non_separator(tokens, from + 1)
    } else {
        from
    }
}

/// The words among the tokens from index `from` on, each with the position
/// that the walk has reached at it.
pub open spec fn scan_words(tokens: Seq<TokenView>, from: nat, state: Scan) -> Seq<PositionedView>
    decreases tokens.len() - from,
{
    if from >= tokens.len() {
        Seq::empty()
    } else {
        let next = scan_next(state, tokens[from as int]);
        (if is_emitted(tokens[from as int]) {
            seq![PositionedView { position: next.offset, lemma: tokens[from as int].lemma }]
        } else {
            Seq::empty()
        }) + scan_words(tokens, from + 1, next)
    }
}

/// The words of a text with their positions: leading separators are left
/// out, the first word stands at `start_offset`, and each later word stands
/// one further than the word before it, or [`MAX_DISTANCE`] further where a
/// hard separator lies between them.
pub open spec fn spec_process_tokens(start_offset: u32, tokens: Seq<TokenView>) -> Seq<
    PositionedView,
> {
    scan_words(
        tokens,
        first_non_separator(tokens, 0),
        Scan { offset: start_offset, prev_kind: None },
    )
}

/// Takes the tokens of a text and computes the position of each word:
/// after a hard separator a word stands [`MAX_DISTANCE`] after the word
/// before it, else one after it.
pub fn process_tokens(start_offset: u32, tokens: &Vec<Token>) -> (words: Vec<Positioned>)
    ensures
        positioned_views(words@) == spec_process_tokens(start_offset, token_views(tokens@)),
{
    let ghost views = token_views(tokens@);
    let mut first: usize = 0;
    while first < tokens.len() && is_separator(&tokens[first])
        invariant
            first <= tokens.len(),
            views == token_views(tokens@),
            first_non_separator(views, first as nat) == first_non_separator(views, 0),
        decreases tokens.len() - first,
    {
        first += 1;
    }
    let mut words: Vec<Positioned> = Vec::new();
    let mut offset: u32 = start_offset;
    let mut prev_kind: Option<TokenKind> = None;
    let mut i: usize = first;
    assert(positioned_views(words@) =~= Seq::<PositionedView>::empty());
    while i < tokens.len()
        invariant
            first <= i <= tokens.len(),
            views == token_views(tokens@),
            positioned_views(words@) + scan_words(views, i as nat, Scan { offset, prev_kind })
                == scan_words(
                views,
                first as nat,
                Scan { offset: start_offset, prev_kind: None },
            ),
        decreases tokens.len() - i,
    {
        let token = &tokens[i];
        let ghost state = Scan { offset, prev_kind };
        let ghost before = positioned_views(words@);
        let ghost rest = scan_words(views, (i + 1) as nat, scan_next(state, views[i as int]));
        let has_lemma = !token.lemma.as_str().is_empty();
        match token.kind {
            TokenKind::Word | TokenKind::StopWord => {
                if has_lemma {
                    let step: u32 = match prev_kind {
                        Some(TokenKind::Separator(SeparatorKind::Hard)) => MAX_DISTANCE,
                        Some(_) => 1,
                        None => 0,
                    };
                    offset = saturating_add(offset, step);
                    prev_kind = Some(token.kind);
                }
            },
            TokenKind::Separator(SeparatorKind::Hard) => {
                prev_kind = Some(token.kind);
            },
            TokenKind::Separator(SeparatorKind::Soft) => {
                match prev_kind {
                    Some(TokenKind::Separator(SeparatorKind::Hard)) => {},
                    _ => {
                        prev_kind = Some(token.kind);
                    },
                }
            },
            TokenKind::Unknown => {},
        }
        assert(Scan { offset, prev_kind } == scan_next(state, views[i as int]));
        let is_word = match token.kind {
            TokenKind::Word => has_lemma,
            _ => false,
        };
        if is_word {
            let word = Positioned { position: offset, lemma: token.lemma.clone() };
            proof {
                assert(positioned_views(words@.push(word)) =~= before.push(word@));
                assert((before + seq![word@]) + rest =~= before + (seq![word@] + rest));
                assert(before.push(word@) =~= before + seq![word@]);
            }
            words.push(word);
        } else {
            proof {
                assert(before + (Seq::<PositionedView>::empty() + rest) =~= before + rest);
            }
        }
        i += 1;
    }
    proof {
        assert(positioned_views(words@) + Seq::<PositionedView>::empty() =~= positioned_views(
            words@,
        ));
    }
    words
}

/// Whether the token is a separator.
pub fn is_separator(token: &Token) -> (r: bool)
    ensures
        r == (token@.kind is Separator),
{
    match token.kind {
        TokenKind::Separator(_) => true,
        _ => false,
    }
}

/// The memory of the walk after the tokens `from..to`, begun with `state`.
pub open spec fn scan_over(tokens: Seq<TokenView>, from: nat, to: nat, state: Scan) -> Scan
    decreases to - from,
{
    if from >= to {
        state
    } else {
        scan_over(tokens, from + 1, to, scan_next(state, tokens[from as int]))
    }
}

/// Whether one of the tokens `from..to` is a hard separator.
pub open spec fn any_hard(tokens: Seq<TokenView>, from: nat, to: nat) -> bool {
    exists|k: int|
        from <= k < to && (#[trigger] tokens[k]).kind == TokenKind::Separator(SeparatorKind::Hard)
}

/// Separators give no word: the words from `from` on are those from `to` on
/// where only separators lie between. They leave the position as it is, and
/// what they leave as the kind of the last token is hard if one of them is.
proof fn lemma_scan_separators(tokens: Seq<TokenView>, from: nat, to: nat, state: Scan)
    requires
        from <= to <= tokens.len(),
        forall|k: int| from <= k < to ==> (#[trigger] tokens[k]).kind is Separator,
        state.prev_kind is Some,
    ensures
        scan_words(tokens, from, state) == scan_words(
            tokens,
            to,
            scan_over(tokens, from, to, state),
        ),
        scan_over(tokens, from, to, state).offset == state.offset,
        from < to ==> scan_over(tokens, from, to, state).prev_kind == Some(
            TokenKind::Separator(
                if any_hard(tokens, from, to) || state.prev_kind == Some(
                    TokenKind::Separator(SeparatorKind::Hard),
                ) {
                    SeparatorKind::Hard
                } else {
                    SeparatorKind::Soft
                },
            ),
        ),
    decreases to - from,
{
    if from < to {
        let token = tokens[from as int];
        let next = scan_next(state, token);
        assert(token.kind is Separator);
        lemma_scan_separators(tokens, from + 1, to, next);
        assert(scan_words(tokens, from, state) =~= scan_words(tokens, from + 1, next));
        if any_hard(tokens, from, to) {
            let k = choose|k: int|
                from <= k < to && (#[trigger] tokens[k]).kind == TokenKind::Separator(
                    SeparatorKind::Hard,
                );
            if k != from {
                assert(any_hard(tokens, from + 1, to));
            }
        }
        if from + 1 < to && any_hard(tokens, from + 1, to) {
            let k = choose|k: int|
                from + 1 <= k < to && (#[trigger] tokens[k]).kind == TokenKind::Separator(
                    SeparatorKind::Hard,
                );
            assert(tokens[k].kind == TokenKind::Separator(SeparatorKind::Hard));
            assert(any_hard(tokens, from, to));
        }
        if token.kind == TokenKind::Separator(SeparatorKind::Hard) {
            assert(any_hard(tokens, from, to));
        }
    }
}

/// Two words with nothing but separators between them stand
/// [`MAX_DISTANCE`] apart where one of the separators is hard, and one apart
/// where all are soft. (The later position is held at the largest one where
/// the sum would pass it.)
pub proof fn lemma_distance_of_separated_words(
    start_offset: u32,
    first: TokenView,
    separators: Seq<TokenView>,
    second: TokenView,
)
    requires
        is_emitted(first),
        is_emitted(second),
        separators.len() > 0,
        forall|k: int| 0 <= k < separators.len() ==> (#[trigger] separators[k]).kind is Separator,
    ensures
        spec_process_tokens(start_offset, seq![first] + separators + seq![second]) == seq![
            PositionedView { position: start_offset, lemma: first.lemma },
            PositionedView {
                position: spec_saturating_add(
                    start_offset,
                    if exists|k: int|
                        0 <= k < separators.len() && (#[trigger] separators[k]).kind
                            == TokenKind::Separator(SeparatorKind::Hard) {
                        MAX_DISTANCE
                    } else {
                        1
                    },
                ),
                lemma: second.lemma,
            },
        ],
{
    let tokens = seq![first] + separators + seq![second];
    let n: nat = separators.len();
    assert(tokens.len() == n + 2);
    assert(tokens[0] == first);
    assert(tokens[n + 1 as int] == second);
    assert forall|k: int| 1 <= k < n + 1 implies (#[trigger] tokens[k]).kind is Separator by {
        assert(tokens[k] == separators[k - 1]);
    }
    let init = Scan { offset: start_offset, prev_kind: None };
    assert(first_non_separator(tokens, 0) == 0);
    let after_first = scan_next(init, first);
    assert(after_first == Scan { offset: start_offset, prev_kind: Some(TokenKind::Word) });
    lemma_scan_separators(tokens, 1, n + 1, after_first);
    let before_second = scan_over(tokens, 1, n + 1, after_first);
    let hard = exists|k: int|
        0 <= k < separators.len() && (#[trigger] separators[k]).kind == TokenKind::Separator(
            SeparatorKind::Hard,
        );
    assert(hard == any_hard(tokens, 1, n + 1)) by {
        if hard {
            let k = choose|k: int|
                0 <= k < separators.len() && (#[trigger] separators[k]).kind
                    == TokenKind::Separator(SeparatorKind::Hard);
            assert(tokens[k + 1] == separators[k]);
            assert(tokens[k + 1].kind == TokenKind::Separator(SeparatorKind::Hard));
        }
        if any_hard(tokens, 1, n + 1) {
            let k = choose|k: int|
                1 <= k < n + 1 && (#[trigger] tokens[k]).kind == TokenKind::Separator(
                    SeparatorKind::Hard,
                );
            assert(tokens[k] == separators[k - 1]);
            assert(separators[k - 1].kind == TokenKind::Separator(SeparatorKind::Hard));
        }
    }
    let after_second = scan_next(before_second, second);
    assert(scan_words(tokens, n + 2, after_second) =~= Seq::<PositionedView>::empty());
    assert(scan_words(tokens, n + 1, before_second) =~= seq![
        PositionedView { position: after_second.offset, lemma: second.lemma },
    ]);
    assert(scan_words(tokens, 0, init) =~= seq![
        PositionedView { position: start_offset, lemma: first.lemma },
    ] + scan_words(tokens, 1, after_first));
    assert(spec_process_tokens(start_offset, tokens) =~= seq![
        PositionedView { position: start_offset, lemma: first.lemma },
        PositionedView { position: after_second.offset, lemma: second.lemma },
    ]);
}

} // verus!
