//! The kana as teaching material: which script a kana belongs to and what
//! kind of sound it writes.

use vstd::prelude::*;

verus! {

/// The script of a kana.
#[derive(Clone, Copy, Debug, PartialEq, Eq, Structural)]
pub enum KanaCategory {
    Hiragana,
    Katakana,
}

/// The kind of sound that a kana writes.
#[derive(Clone, Copy, Debug, PartialEq, Eq, Structural)]
pub enum KanaType {
    Seion,
    Dakuon,
    Handakuon,
    Yoon,
}

/// A kana with all the readings that are accepted for it.
#[derive(Debug, PartialEq, Eq)]
pub struct Kana {
    pub character: String,
    pub romaji: Vec<String>,
    pub category: KanaCategory,
    pub kana_type: KanaType,
}

} // verus!
