//! The kana table: each hiragana and katakana with its romaji reading.

use vstd::prelude::*;
use vstd::string::StringExecFns;

verus! {

/// Number of kana in the table.
pub const KANA_COUNT: usize = 142;

/// The kana, hiragana before katakana, plain sounds before voiced ones.
pub const KANA_CHARACTERS: [&'static str; 142] = [
    "あ", "い", "う", "え", "お", "か", "き", "く", "け", "こ",
    "さ", "し", "す", "せ", "そ", "た", "ち", "つ", "て", "と",
    "な", "に", "ぬ", "ね", "の", "は", "ひ", "ふ", "へ", "ほ",
    "ま", "み", "む", "め", "も", "や", "ゆ", "よ", "ら", "り",
    "る", "れ", "ろ", "わ", "を", "ん", "が", "ぎ", "ぐ", "げ",
    "ご", "ざ", "じ", "ず", "ぜ", "ぞ", "だ", "ぢ", "づ", "で",
    "ど", "ば", "び", "ぶ", "べ", "ぼ", "ぱ", "ぴ", "ぷ", "ぺ",
    "ぽ", "ア", "イ", "ウ", "エ", "オ", "カ", "キ", "ク", "ケ",
    "コ", "サ", "シ", "ス", "セ", "ソ", "タ", "チ", "ツ", "テ",
    "ト", "ナ", "ニ", "ヌ", "ネ", "ノ", "ハ", "ヒ", "フ", "ヘ",
    "ホ", "マ", "ミ", "ム", "メ", "モ", "ヤ", "ユ", "ヨ", "ラ",
    "リ", "ル", "レ", "ロ", "ワ", "ヲ", "ン", "ガ", "ギ", "グ",
    "ゲ", "ゴ", "ザ", "ジ", "ズ", "ゼ", "ゾ", "ダ", "ヂ", "ヅ",
    "デ", "ド", "バ", "ビ", "ブ", "ベ", "ボ", "パ", "ピ", "プ",
    "ペ", "ポ",
];

/// The reading of each kana of [`KANA_CHARACTERS`], at the same position.
pub const KANA_ROMAJI: [&'static str; 142] = [
    "a", "i", "u", "e", "o", "ka", "ki", "ku", "ke", "ko",
    "sa", "shi", "su", "se", "so", "ta", "chi", "tsu", "te", "to",
    "na", "ni", "nu", "ne", "no", "ha", "hi", "fu", "he", "ho",
    "ma", "mi", "mu", "me", "mo", "ya", "yu", "yo", "ra", "ri",
    "ru", "re", "ro", "wa", "wo", "n", "ga", "gi", "gu", "ge",
    "go", "za", "ji", "zu", "ze", "zo", "da", "ji", "zu", "de",
    "do", "ba", "bi", "bu", "be", "bo", "pa", "pi", "pu", "pe",
    "po", "a", "i", "u", "e", "o", "ka", "ki", "ku", "ke",
    "ko", "sa", "shi", "su", "se", "so", "ta", "chi", "tsu", "te",
    "to", "na", "ni", "nu", "ne", "no", "ha", "hi", "fu", "he",
    "ho", "ma", "mi", "mu", "me", "mo", "ya", "yu", "yo", "ra",
    "ri", "ru", "re", "ro", "wa", "wo", "n", "ga", "gi", "gu",
    "ge", "go", "za", "ji", "zu", "ze", "zo", "da", "ji", "zu",
    "de", "do", "ba", "bi", "bu", "be", "bo", "pa", "pi", "pu",
    "pe", "po",
];

/// One kana with its reading.
#[derive(Clone, Copy, Debug, PartialEq, Eq)]
pub struct Kana {
    pub character: &'static str,
    pub romaji: &'static str,
}

/// The entry at `index` of the table.
pub open spec fn kana_entry(index: int) -> Kana {
    Kana { character: KANA_CHARACTERS[index], romaji: KANA_ROMAJI[index] }
}

/// The position of the first kana from `start` on that is read `reading`,
/// if there is one.
pub open spec fn first_read_as(reading: Seq<char>, start: int) -> Option<int>
    decreases KANA_COUNT - start,
{
    if start < 0 || start >= KANA_COUNT {
        None
    } else if KANA_ROMAJI[start]@ == reading {
        Some(start)
    } else {
        first_read_as(reading, start + 1)
    }
}

/// Computes [`kana_entry`].
pub fn kana_at(index: usize) -> (kana: Kana)
    requires
        index < KANA_COUNT,
    ensures
        kana == kana_entry(index as int),
{
    Kana { character: KANA_CHARACTERS[index], romaji: KANA_ROMAJI[index] }
}

/// The whole table, in its order.
pub fn get_all_kana() -> (table: Vec<Kana>)
    ensures
        table@.len() == KANA_COUNT,
        forall|i: int| 0 <= i < KANA_COUNT ==> #[trigger] table@[i] == kana_entry(i),
{
    let mut table: Vec<Kana> = Vec::new();
    let mut i: usize = 0;
    while i < KANA_COUNT
        invariant
            i <= KANA_COUNT,
            table@.len() == i,
            forall|k: int| 0 <= k < i ==> #[trigger] table@[k] == kana_entry(k),
        decreases KANA_COUNT - i,
    {
        table.push(kana_at(i));
        i += 1;
    }
    table
}

/// Finds the first kana that is read `reading`.
pub fn find_by_romaji(reading: &str) -> (found: Option<usize>)
    ensures
        match found {
            Some(index) => first_read_as(reading@, 0) == Some(index as int) && index < KANA_COUNT,
            None => first_read_as(reading@, 0) is None,
        },
{
    let wanted = String::from_str(reading);
    let mut i: usize = 0;
    while i < KANA_COUNT
        invariant
            i <= KANA_COUNT,
            wanted@ == reading@,
            first_read_as(reading@, 0) == first_read_as(reading@, i as int),
        decreases KANA_COUNT - i,
    {
        if String::from_str(KANA_ROMAJI[i]) == wanted {
            return Some(i);
        }
        i += 1;
    }
    None
}

} // verus!
