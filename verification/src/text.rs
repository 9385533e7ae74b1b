//! Normal forms of answers: trimmed, lower case, without spaces, and, for
//! romaji, with variant spellings folded into one.

use vstd::prelude::*;

verus! {

/// The lower-case form that `str::to_lowercase` gives to a text.
pub uninterp spec fn lowercase_of(text: Seq<char>) -> Seq<char>;

/// The characters with the Unicode property `White_Space`.
pub open spec fn is_whitespace(c: char) -> bool {
    let code = c as u32;
    ||| 0x09 <= code <= 0x0D
    ||| code == 0x20
    ||| code == 0x85
    ||| code == 0xA0
    ||| code == 0x1680
    ||| 0x2000 <= code <= 0x200A
    ||| code == 0x2028
    ||| code == 0x2029
    ||| code == 0x202F
    ||| code == 0x205F
    ||| code == 0x3000
}

/// A text without the whitespace at its start.
pub open spec fn trimmed_start(text: Seq<char>) -> Seq<char>
    decreases text.len(),
{
    if text.len() > 0 && is_whitespace(text[0]) {
        trimmed_start(text.skip(1))
    } else {
        text
    }
}

/// A text without the whitespace at its end.
pub open spec fn trimmed_end(text: Seq<char>) -> Seq<char>
    decreases text.len(),
{
    if text.len() > 0 && is_whitespace(text.last()) {
        trimmed_end(text.drop_last())
    } else {
        text
    }
}

/// A text without the whitespace at its start and at its end.
pub open spec fn trimmed(text: Seq<char>) -> Seq<char> {
    trimmed_end(trimmed_start(text))
}

/// A text in which every occurrence of `from` is replaced by `to`. The
/// occurrences are found from left to right and do not overlap.
pub open spec fn replaced(text: Seq<char>, from: Seq<char>, to: Seq<char>) -> Seq<char>
    decreases text.len(),
{
    if from.len() == 0 || text.len() < from.len() {
        text
    } else if text.take(from.len() as int) == from {
        to + replaced(text.skip(from.len() as int), from, to)
    } else {
        seq![text[0]] + replaced(text.skip(1), from, to)
    }
}

/// A text without its spaces.
pub open spec fn without_spaces(text: Seq<char>) -> Seq<char> {
    replaced(text, " "@, ""@)
}

/// The form in which answers are compared: trimmed, in lower case, without
/// spaces.
pub open spec fn normal_form(text: Seq<char>) -> Seq<char> {
    without_spaces(lowercase_of(trimmed(text)))
}

/// A romaji text in which the variant spellings of a syllable are replaced
/// by one spelling, one variant after the other.
pub open spec fn romaji_folded(text: Seq<char>) -> Seq<char> {
    let s = replaced(text, "tu"@, "tsu"@);
    let s = replaced(s, "si"@, "shi"@);
    let s = replaced(s, "ti"@, "chi"@);
    let s = replaced(s, "hu"@, "fu"@);
    let s = replaced(s, "zi"@, "ji"@);
    let s = replaced(s, "di"@, "ji"@);
    let s = replaced(s, "du"@, "zu"@);
    let s = replaced(s, "sya"@, "sha"@);
    let s = replaced(s, "syu"@, "shu"@);
    let s = replaced(s, "syo"@, "sho"@);
    let s = replaced(s, "tya"@, "cha"@);
    let s = replaced(s, "tyu"@, "chu"@);
    let s = replaced(s, "tyo"@, "cho"@);
    let s = replaced(s, "zya"@, "ja"@);
    let s = replaced(s, "jya"@, "ja"@);
    let s = replaced(s, "zyu"@, "ju"@);
    let s = replaced(s, "jyu"@, "ju"@);
    let s = replaced(s, "zyo"@, "jo"@);
    replaced(s, "jyo"@, "jo"@)
}

/// Calls `str::trim`, which returns the slice without leading and trailing
/// whitespace, whitespace being the characters with the Unicode property
/// `White_Space`.
#[verifier::external_body]
pub(crate) fn trim<'a>(text: &'a str) -> (inner: &'a str)
    ensures
        inner@ == trimmed(text@),
{
    text.trim()
}

/// Calls `str::to_lowercase`. The result is a function of the text alone
/// and is known here only by its name, [`lowercase_of`].
#[verifier::external_body]
pub(crate) fn to_lowercase(text: &str) -> (lowered: String)
    ensures
        lowered@ == lowercase_of(text@),
{
    text.to_lowercase()
}

/// Calls `str::replace` with a pattern that is not empty: every match of
/// `from`, found from left to right without overlap, is replaced by `to`.
#[verifier::external_body]
pub(crate) fn replace(text: &str, from: &str, to: &str) -> (result: String)
    requires
        from@.len() > 0,
    ensures
        result@ == replaced(text@, from@, to@),
{
    text.replace(from, to)
}

/// Removes the spaces of a text.
pub fn strip_spaces(text: &str) -> (stripped: String)
    ensures
        stripped@ == without_spaces(text@),
{
    proof {
        reveal_strlit(" ");
    }
    replace(text, " ", "")
}

/// Folds the variant spellings of romaji syllables into one spelling.
pub fn fold_romaji(text: &str) -> (folded: String)
    ensures
        folded@ == romaji_folded(text@),
{
    proof {
        reveal_strlit("tu");
        reveal_strlit("si");
        reveal_strlit("ti");
        reveal_strlit("hu");
        reveal_strlit("zi");
        reveal_strlit("di");
        reveal_strlit("du");
        reveal_strlit("sya");
        reveal_strlit("syu");
        reveal_strlit("syo");
        reveal_strlit("tya");
        reveal_strlit("tyu");
        reveal_strlit("tyo");
        reveal_strlit("zya");
        reveal_strlit("jya");
        reveal_strlit("zyu");
        reveal_strlit("jyu");
        reveal_strlit("zyo");
        reveal_strlit("jyo");
    }
    let s = replace(text, "tu", "tsu");
    let s = replace(s.as_str(), "si", "shi");
    let s = replace(s.as_str(), "ti", "chi");
    let s = replace(s.as_str(), "hu", "fu");
    let s = replace(s.as_str(), "zi", "ji");
    let s = replace(s.as_str(), "di", "ji");
    let s = replace(s.as_str(), "du", "zu");
    let s = replace(s.as_str(), "sya", "sha");
    let s = replace(s.as_str(), "syu", "shu");
    let s = replace(s.as_str(), "syo", "sho");
    let s = replace(s.as_str(), "tya", "cha");
    let s = replace(s.as_str(), "tyu", "chu");
    let s = replace(s.as_str(), "tyo", "cho");
    let s = replace(s.as_str(), "zya", "ja");
    let s = replace(s.as_str(), "jya", "ja");
    let s = replace(s.as_str(), "zyu", "ju");
    let s = replace(s.as_str(), "jyu", "ju");
    let s = replace(s.as_str(), "zyo", "jo");
    replace(s.as_str(), "jyo", "jo")
}

/// Brings an answer into the form in which answers are compared.
pub fn normalize_answer(raw: &str) -> (normal: String)
    ensures
        normal@ == normal_form(raw@),
{
    let lowered = to_lowercase(trim(raw));
    strip_spaces(lowered.as_str())
}

/// Brings a romaji answer into its normal form and folds its variant
/// spellings.
pub fn normalize_input(input: &str) -> (normal: String)
    ensures
        normal@ == romaji_folded(normal_form(input@)),
{
    let normal = normalize_answer(input);
    fold_romaji(normal.as_str())
}

/// Whether a given answer is the expected one: whether their normal forms
/// are the same text.
pub fn answers_match(given: &str, expected: &str) -> (same: bool)
    ensures
        same == (normal_form(given@) == normal_form(expected@)),
{
    let a = normalize_answer(given);
    let b = normalize_answer(expected);
    a == b
}

} // verus!
