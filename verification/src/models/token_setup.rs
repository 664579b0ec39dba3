//! What a tokenizer was set up with, and which tokenizers take every text.

use crate::strings::{chars_of, same, views};
use tokenizers::Tokenizer;
use vstd::prelude::*;

verus! {

/// The tokenizer of `tokenizers`.
#[verifier::external_type_specification]
#[verifier::external_body]
pub struct ExTokenizer(tokenizers::Tokenizer);

/// The model that turns words into tokens.
pub enum WordModel {
    WordPiece,
    WordLevel,
    Other,
}

/// What is done to a text before it is split.
pub enum Cleaning {
    Nothing,
    Bert,
    Lowercase,
    StripAccents,
    Decompose,
    Other,
}

/// How a text is split into words.
pub enum Splitting {
    Nothing,
    Bert,
    Whitespace,
    WhitespaceSplit,
    Punctuation,
    Other,
}

/// What puts the special tokens around a text.
pub enum Framing {
    Nothing,
    Bert,
    Template,
    Other,
}

/// A piece of a template: a place for the first text or for the second, or a special token by
/// its name.
pub enum Piece {
    First,
    Second,
    Token(String),
}

/// A piece of a template, with the name of its token as characters.
pub enum PieceView {
    First,
    Second,
    Token(Seq<char>),
}

impl View for Piece {
    type V = PieceView;

    open spec fn view(&self) -> PieceView {
        match self {
            Piece::First => PieceView::First,
            Piece::Second => PieceView::Second,
            Piece::Token(name) => PieceView::Token(name@),
        }
    }
}

/// The model of a tokenizer.
pub uninterp spec fn model_of(tokenizer: Tokenizer) -> WordModel;

/// `get_model` gives the model, and its variant tells which it is.
#[verifier::external_body]
fn word_model(tokenizer: &Tokenizer) -> (r: WordModel)
    ensures
        r == model_of(*tokenizer),
{
    match tokenizer.get_model() {
        tokenizers::ModelWrapper::WordPiece(_) => WordModel::WordPiece,
        tokenizers::ModelWrapper::WordLevel(_) => WordModel::WordLevel,
        tokenizers::ModelWrapper::BPE(_) => WordModel::Other,
        tokenizers::ModelWrapper::Unigram(_) => WordModel::Other,
    }
}

/// The normalizer of a tokenizer.
pub uninterp spec fn cleaning_of(tokenizer: Tokenizer) -> Cleaning;

/// `get_normalizer` gives the normalizer, and its variant tells which it is.
#[verifier::external_body]
fn cleaning(tokenizer: &Tokenizer) -> (r: Cleaning)
    ensures
        r == cleaning_of(*tokenizer),
{
    match tokenizer.get_normalizer() {
        None => Cleaning::Nothing,
        Some(tokenizers::NormalizerWrapper::BertNormalizer(_)) => Cleaning::Bert,
        Some(tokenizers::NormalizerWrapper::Lowercase(_)) => Cleaning::Lowercase,
        Some(tokenizers::NormalizerWrapper::StripAccents(_)) => Cleaning::StripAccents,
        Some(tokenizers::NormalizerWrapper::NFD(_)) => Cleaning::Decompose,
        Some(_) => Cleaning::Other,
    }
}

/// The pre-tokenizer of a tokenizer.
pub uninterp spec fn splitting_of(tokenizer: Tokenizer) -> Splitting;

/// `get_pre_tokenizer` gives the pre-tokenizer, and its variant tells which it is.
#[verifier::external_body]
fn splitting(tokenizer: &Tokenizer) -> (r: Splitting)
    ensures
        r == splitting_of(*tokenizer),
{
    match tokenizer.get_pre_tokenizer() {
        None => Splitting::Nothing,
        Some(tokenizers::PreTokenizerWrapper::BertPreTokenizer(_)) => Splitting::Bert,
        Some(tokenizers::PreTokenizerWrapper::Whitespace(_)) => Splitting::Whitespace,
        Some(tokenizers::PreTokenizerWrapper::WhitespaceSplit(_)) => Splitting::WhitespaceSplit,
        Some(tokenizers::PreTokenizerWrapper::Punctuation(_)) => Splitting::Punctuation,
        Some(_) => Splitting::Other,
    }
}

/// The post-processor of a tokenizer.
pub uninterp spec fn framing_of(tokenizer: Tokenizer) -> Framing;

/// `get_post_processor` gives the post-processor, and its variant tells which it is.
#[verifier::external_body]
fn framing(tokenizer: &Tokenizer) -> (r: Framing)
    ensures
        r == framing_of(*tokenizer),
{
    match tokenizer.get_post_processor() {
        None => Framing::Nothing,
        Some(tokenizers::PostProcessorWrapper::Bert(_)) => Framing::Bert,
        Some(tokenizers::PostProcessorWrapper::Template(_)) => Framing::Template,
        Some(_) => Framing::Other,
    }
}

/// How many tokens the post-processor of a tokenizer puts around a single text; nothing where
/// there is no post-processor.
pub uninterp spec fn added_by(tokenizer: Tokenizer) -> Option<usize>;

/// `PostProcessor::added_tokens` counts the tokens put around a single text.
#[verifier::external_body]
fn added_count(tokenizer: &Tokenizer) -> (r: Option<usize>)
    ensures
        r == added_by(*tokenizer),
{
    match tokenizer.get_post_processor() {
        Some(processor) => Some(tokenizers::PostProcessor::added_tokens(processor, false)),
        None => None,
    }
}

/// The pieces of the template for a single text; nothing where the post-processor is no template.
pub uninterp spec fn pieces_of(tokenizer: Tokenizer) -> Option<Seq<PieceView>>;

/// `TemplateProcessing::single` holds the template for a single text, whose pieces `serde_json`
/// hands out.
#[verifier::external_body]
fn template_pieces(tokenizer: &Tokenizer) -> (r: Option<Vec<Piece>>)
    ensures
        match r {
            Some(pieces) => pieces_of(*tokenizer) == Some(pieces@.map_values(|p: Piece| p@)),
            None => pieces_of(*tokenizer) is None,
        },
{
    let template = match tokenizer.get_post_processor() {
        Some(tokenizers::PostProcessorWrapper::Template(t)) => serde_json::to_value(&t.single).ok(),
        _ => None,
    };
    let pieces: Vec<tokenizers::processors::template::Piece> = serde_json::from_value(template?).ok()?;
    Some(pieces.into_iter().map(|p| match p {
        tokenizers::processors::template::Piece::SpecialToken { id, .. } => Piece::Token(id),
        tokenizers::processors::template::Piece::Sequence { id, .. } => match id {
            tokenizers::processors::template::Sequence::A => Piece::First,
            tokenizers::processors::template::Sequence::B => Piece::Second,
        },
    }).collect())
}

/// The names of the special tokens that the template of a tokenizer knows.
pub uninterp spec fn names_of(tokenizer: Tokenizer) -> Set<Seq<char>>;

/// `TemplateProcessing::get_special_tokens` is a map from names to special tokens; a
/// post-processor that is no template has none.
#[verifier::external_body]
fn template_names(tokenizer: &Tokenizer) -> (r: Vec<String>)
    ensures
        views(r@).to_set() == names_of(*tokenizer),
{
    match tokenizer.get_post_processor() {
        Some(tokenizers::PostProcessorWrapper::Template(template)) => {
            template.get_special_tokens().0.keys().cloned().collect()
        },
        _ => Vec::new(),
    }
}

/// How many tokens a tokenizer cuts a text to, those around it among them, and how many tokens
/// the parts share; nothing where it does not cut.
pub uninterp spec fn cut_of(tokenizer: Tokenizer) -> Option<(usize, usize)>;

/// `get_truncation` gives how texts are cut: the greatest length and the stride.
#[verifier::external_body]
fn cut(tokenizer: &Tokenizer) -> (r: Option<(usize, usize)>)
    ensures
        r == cut_of(*tokenizer),
{
    match tokenizer.get_truncation() {
        Some(params) => Some((params.max_length, params.stride)),
        None => None,
    }
}

/// How a tokenizer pads: to a fixed length or to that of the text, and to a multiple of a length;
/// nothing where it does not pad.
pub uninterp spec fn padding_of(tokenizer: Tokenizer) -> Option<(Option<usize>, Option<usize>)>;

/// `get_padding` gives how texts are padded: the fixed length, where there is one, and the
/// multiple.
#[verifier::external_body]
fn padding(tokenizer: &Tokenizer) -> (r: Option<(Option<usize>, Option<usize>)>)
    ensures
        r == padding_of(*tokenizer),
{
    match tokenizer.get_padding() {
        Some(params) => match params.strategy {
            tokenizers::PaddingStrategy::Fixed(len) => Some((Some(len), params.pad_to_multiple_of)),
            tokenizers::PaddingStrategy::BatchLongest => Some((None, params.pad_to_multiple_of)),
        },
        None => None,
    }
}

/// The texts of the tokens that a tokenizer has beside those of its model.
pub uninterp spec fn added_texts_of(tokenizer: Tokenizer) -> Set<Seq<char>>;

/// `AddedVocabulary::get_vocab` is a map from the texts of the added tokens.
#[verifier::external_body]
fn added_texts(tokenizer: &Tokenizer) -> (r: Vec<String>)
    ensures
        views(r@).to_set() == added_texts_of(*tokenizer),
{
    tokenizer.get_added_vocabulary().get_vocab().keys().cloned().collect()
}

/// Which sides the added tokens of a tokenizer take white space from: the left and the right.
pub uninterp spec fn sides_of(tokenizer: Tokenizer) -> Set<(bool, bool)>;

/// `AddedVocabulary::get_added_tokens_decoder` is a map to the added tokens, each of which tells
/// whether it takes the white space on its left and on its right.
#[verifier::external_body]
fn added_sides(tokenizer: &Tokenizer) -> (r: Vec<(bool, bool)>)
    ensures
        r@.to_set() == sides_of(*tokenizer),
{
    let tokens = tokenizer.get_added_vocabulary().get_added_tokens_decoder();
    tokens.values().map(|token| (token.lstrip, token.rstrip)).collect()
}

/// The longest padding.
pub const MAX_PADDING: usize = 16_777_216;

/// Whether a cut leaves room beside the added tokens: the parts of a text then share fewer tokens
/// than they have, or have none.
pub open spec fn leaves_room(cut: Option<(usize, usize)>, added: Option<usize>) -> bool {
    let around = match added {
        Some(n) => n,
        None => 0,
    };
    match cut {
        Some((most, stride)) => around <= most && (around == most || stride < most - around),
        None => true,
    }
}

/// Whether padding stays within the longest.
pub open spec fn pads_within(padding: Option<(Option<usize>, Option<usize>)>) -> bool {
    match padding {
        Some((fixed, multiple)) => {
            &&& fixed matches Some(len) ==> len <= MAX_PADDING
            &&& multiple matches Some(len) ==> len <= MAX_PADDING
        },
        None => true,
    }
}

/// Whether a template for a single text has places for that text only, and tokens that are known.
pub open spec fn frames_one_text(pieces: Seq<PieceView>, names: Set<Seq<char>>) -> bool {
    forall|i: int|
        0 <= i < pieces.len() ==> match #[trigger] pieces[i] {
            PieceView::First => true,
            PieceView::Second => false,
            PieceView::Token(name) => names.contains(name),
        }
}

/// Whether a character is one that no cleaning takes away: a printable one of ASCII, or a common
/// ideograph.
pub open spec fn is_kept(c: char) -> bool {
    '!' <= c <= '~' || '\u{4E00}' <= c <= '\u{9FA5}'
}

/// Whether something is left of a text however it is cleaned.
pub open spec fn keeps_something(text: Seq<char>) -> bool {
    exists|i: int| 0 <= i < text.len() && is_kept(#[trigger] text[i])
}

/// Whether no token takes the white space on its left while one takes that on its right.
pub open spec fn one_sided(sides: Set<(bool, bool)>) -> bool {
    ||| forall|s: (bool, bool)| #[trigger] sides.contains(s) ==> !s.0
    ||| forall|s: (bool, bool)| #[trigger] sides.contains(s) ==> !s.1
}

/// Whether a tokenizer takes every text: its parts are ones that do, none of its added tokens can
/// be cleaned away, none of them takes the space of another, the template is one for a single
/// text, and neither the cut nor the padding asks for the impossible.
pub open spec fn takes_every_text(tokenizer: Tokenizer) -> bool {
    &&& !(model_of(tokenizer) is Other)
    &&& !(cleaning_of(tokenizer) is Other)
    &&& !(splitting_of(tokenizer) is Other)
    &&& !(framing_of(tokenizer) is Other)
    &&& framing_of(tokenizer) is Template ==> (pieces_of(tokenizer) matches Some(pieces)
        && frames_one_text(pieces, names_of(tokenizer)))
    &&& cleaning_of(tokenizer) is Nothing || forall|text: Seq<char>| #[trigger]
        added_texts_of(tokenizer).contains(text) ==> keeps_something(text)
    &&& one_sided(sides_of(tokenizer))
    &&& leaves_room(cut_of(tokenizer), added_by(tokenizer))
    &&& pads_within(padding_of(tokenizer))
}

/// Whether a cut leaves room beside the added tokens.
pub fn has_room(cut: Option<(usize, usize)>, added: Option<usize>) -> (r: bool)
    ensures
        r == leaves_room(cut, added),
{
    let around: usize = match added {
        Some(n) => n,
        None => 0,
    };
    match cut {
        Some((most, stride)) => around <= most && (around == most || stride < most - around),
        None => true,
    }
}

/// Whether padding stays within the longest.
pub fn is_short_padding(padding: Option<(Option<usize>, Option<usize>)>) -> (r: bool)
    ensures
        r == pads_within(padding),
{
    match padding {
        Some((fixed, multiple)) => {
            let short = match fixed {
                Some(len) => len <= MAX_PADDING,
                None => true,
            };
            short && match multiple {
                Some(len) => len <= MAX_PADDING,
                None => true,
            }
        },
        None => true,
    }
}

/// Whether a name is among others.
fn is_named(name: &str, names: &Vec<String>) -> (r: bool)
    ensures
        r == views(names@).to_set().contains(name@),
{
    for i in 0..names.len()
        invariant
            forall|j: int| 0 <= j < i ==> (#[trigger] names@[j])@ != name@,
    {
        if same(names[i].as_str(), name) {
            assert(views(names@)[i as int] == name@);
            return true;
        }
    }
    assert forall|j: int| 0 <= j < views(names@).len() implies views(names@)[j] != name@ by {
        assert(views(names@)[j] == names@[j]@);
    }
    false
}

/// Whether a template for a single text has places for that text only, and tokens that are known.
pub fn is_single_template(pieces: &Vec<Piece>, names: &Vec<String>) -> (r: bool)
    ensures
        r == frames_one_text(pieces@.map_values(|p: Piece| p@), views(names@).to_set()),
{
    let ghost seen = pieces@.map_values(|p: Piece| p@);
    for i in 0..pieces.len()
        invariant
            seen == pieces@.map_values(|p: Piece| p@),
            frames_one_text(seen.take(i as int), views(names@).to_set()),
    {
        let known = match &pieces[i] {
            Piece::First => true,
            Piece::Second => false,
            Piece::Token(name) => is_named(name.as_str(), names),
        };
        assert(seen[i as int] == pieces@[i as int]@);
        if !known {
            return false;
        }
        assert(seen.take(i + 1) =~= seen.take(i as int).push(seen[i as int]));
    }
    assert(seen.take(pieces@.len() as int) =~= seen);
    true
}

/// Whether something is left of a text however it is cleaned.
pub fn is_lasting(text: &str) -> (r: bool)
    ensures
        r == keeps_something(text@),
{
    let chars = chars_of(text);
    for i in 0..chars.len()
        invariant
            chars@ == text@,
            forall|j: int| 0 <= j < i ==> !is_kept(#[trigger] text@[j]),
    {
        let c = chars[i];
        if ('!' <= c && c <= '~') || ('\u{4E00}' <= c && c <= '\u{9FA5}') {
            assert(is_kept(text@[i as int]));
            return true;
        }
    }
    false
}

/// Whether something is left of each of some texts however they are cleaned.
fn are_lasting(texts: &Vec<String>) -> (r: bool)
    ensures
        r == (forall|text: Seq<char>| #[trigger]
            views(texts@).to_set().contains(text) ==> keeps_something(text)),
{
    for i in 0..texts.len()
        invariant
            forall|j: int| 0 <= j < i ==> keeps_something((#[trigger] texts@[j])@),
    {
        if !is_lasting(texts[i].as_str()) {
            assert(views(texts@)[i as int] == texts@[i as int]@);
            assert(views(texts@).to_set().contains(texts@[i as int]@));
            return false;
        }
    }
    assert forall|text: Seq<char>| #[trigger]
        views(texts@).to_set().contains(text) implies keeps_something(text) by {
        let j = choose|j: int| 0 <= j < views(texts@).len() && views(texts@)[j] == text;
        assert(texts@[j]@ == text);
    }
    true
}

/// Whether no token takes the white space on its left while one takes that on its right.
pub fn is_one_sided(sides: &Vec<(bool, bool)>) -> (r: bool)
    ensures
        r == one_sided(sides@.to_set()),
{
    let mut left = false;
    let mut right = false;
    for i in 0..sides.len()
        invariant
            left == (exists|j: int| 0 <= j < i && (#[trigger] sides@[j]).0),
            right == (exists|j: int| 0 <= j < i && (#[trigger] sides@[j]).1),
    {
        let side = sides[i];
        assert(sides@[i as int] == side);
        if side.0 {
            left = true;
        }
        if side.1 {
            right = true;
        }
    }
    proof {
        let set = sides@.to_set();
        if left {
            let j = choose|j: int| 0 <= j < sides@.len() && (#[trigger] sides@[j]).0;
            assert(set.contains(sides@[j]));
        }
        if right {
            let j = choose|j: int| 0 <= j < sides@.len() && (#[trigger] sides@[j]).1;
            assert(set.contains(sides@[j]));
        }
        assert forall|s: (bool, bool)| #[trigger] set.contains(s) implies (s.0 ==> left) && (s.1
            ==> right) by {
            let j = choose|j: int| 0 <= j < sides@.len() && sides@[j] == s;
            assert(sides@[j] == s);
        }
    }
    !left || !right
}

/// Whether the parts of a tokenizer are ones that take every text.
fn has_sound_parts(tokenizer: &Tokenizer) -> (r: bool)
    ensures
        r == (!(model_of(*tokenizer) is Other) && !(cleaning_of(*tokenizer) is Other) && !(
        splitting_of(*tokenizer) is Other) && !(framing_of(*tokenizer) is Other)),
{
    match word_model(tokenizer) {
        WordModel::Other => return false,
        _ => {},
    }
    match cleaning(tokenizer) {
        Cleaning::Other => return false,
        _ => {},
    }
    match splitting(tokenizer) {
        Splitting::Other => return false,
        _ => {},
    }
    match framing(tokenizer) {
        Framing::Other => false,
        _ => true,
    }
}

/// Whether a tokenizer takes every text.
pub fn is_fit(tokenizer: &Tokenizer) -> (r: bool)
    ensures
        r == takes_every_text(*tokenizer),
{
    if !has_sound_parts(tokenizer) {
        return false;
    }
    match framing(tokenizer) {
        Framing::Template => match template_pieces(tokenizer) {
            Some(pieces) => {
                if !is_single_template(&pieces, &template_names(tokenizer)) {
                    return false;
                }
            },
            None => return false,
        },
        _ => {},
    }
    match cleaning(tokenizer) {
        Cleaning::Nothing => {},
        _ => {
            if !are_lasting(&added_texts(tokenizer)) {
                return false;
            }
        },
    }
    is_one_sided(&added_sides(tokenizer)) && has_room(cut(tokenizer), added_count(tokenizer))
        && is_short_padding(padding(tokenizer))
}

} // verus!
