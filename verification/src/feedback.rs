//! The explanation shown after a wrong answer.

use vstd::prelude::*;
use vstd::string::StringExecFns;
use crate::data::{find_by_romaji, first_read_as, KANA_CHARACTERS};
use crate::text::{trim, trimmed};

verus! {

/// Writes explanations of wrong answers.
pub struct FeedbackGenerator;

impl FeedbackGenerator {
    /// The first part of every explanation: the right answer and what was
    /// given.
    pub open spec fn summary(kana: Seq<char>, romaji: Seq<char>, given: Seq<char>) -> Seq<char> {
        "正确答案是 "@ + kana + " ("@ + romaji + ")。 你输入了: '"@ + given + "'。 请继续加油！"@
    }

    /// The second part: the kana that the given reading belongs to.
    pub open spec fn hint(given: Seq<char>, confused: Seq<char>) -> Seq<char> {
        "\n你输入的 '"@ + given + "' 对应的假名是 '"@ + confused + "'。"@
    }

    /// The explanation for a given reading, already trimmed: the summary,
    /// and, where the reading is that of a kana other than the right one,
    /// the hint with the first such kana of the table.
    pub open spec fn explanation(kana: Seq<char>, romaji: Seq<char>, given: Seq<char>) -> Seq<char> {
        match first_read_as(given, 0) {
            Some(index) => if KANA_CHARACTERS[index]@ != kana {
                Self::summary(kana, romaji, given) + Self::hint(given, KANA_CHARACTERS[index]@)
            } else {
                Self::summary(kana, romaji, given)
            },
            None => Self::summary(kana, romaji, given),
        }
    }

    /// Explains a wrong answer: names the right kana and its reading and
    /// the trimmed input, and tells which kana the input is the reading of,
    /// if it is one of another kana.
    pub fn generate_explanation(correct_kana: &str, correct_romaji: &str, user_input: &str) -> (message:
        String)
        ensures
            message@ == Self::explanation(correct_kana@, correct_romaji@, trimmed(user_input@)),
    {
        let given = trim(user_input);
        let mut message = String::from_str("正确答案是 ");
        message.append(correct_kana);
        message.append(" (");
        message.append(correct_romaji);
        message.append(")。 你输入了: '");
        message.append(given);
        message.append("'。 请继续加油！");
        match find_by_romaji(given) {
            None => {},
            Some(index) => {
                let confused = KANA_CHARACTERS[index];
                if String::from_str(confused) != String::from_str(correct_kana) {
                    let mut hint = String::from_str("\n你输入的 '");
                    hint.append(given);
                    hint.append("' 对应的假名是 '");
                    hint.append(confused);
                    hint.append("'。");
                    message.append(hint.as_str());
                }
            },
        }
        message
    }
}

} // verus!
