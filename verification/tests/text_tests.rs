use kana_tutor::clock::{decimal_text, format_duration};
use kana_tutor::data::{find_by_romaji, get_all_kana, kana_at, KANA_CHARACTERS, KANA_COUNT, KANA_ROMAJI};
use kana_tutor::feedback::FeedbackGenerator;
use kana_tutor::text::{answers_match, fold_romaji, normalize_answer, normalize_input, strip_spaces};

#[test]
fn answers_are_trimmed_lowered_and_freed_of_spaces() {
    assert_eq!(normalize_answer("  KA \n"), "ka");
    assert_eq!(normalize_answer("\u{3000}Shi\t"), "shi");
    assert_eq!(normalize_answer("k a"), "ka");
    assert_eq!(normalize_answer("ÄB"), "äb");
    assert_eq!(normalize_answer(""), "");
    assert_eq!(normalize_answer("a\tb"), "a\tb");
}

#[test]
fn spaces_are_stripped() {
    assert_eq!(strip_spaces(" a  b c "), "abc");
    assert_eq!(strip_spaces("abc"), "abc");
    assert_eq!(strip_spaces("   "), "");
}

#[test]
fn romaji_variants_are_folded() {
    assert_eq!(fold_romaji("tu"), "tsu");
    assert_eq!(fold_romaji("si"), "shi");
    assert_eq!(fold_romaji("ti"), "chi");
    assert_eq!(fold_romaji("hu"), "fu");
    assert_eq!(fold_romaji("zi"), "ji");
    assert_eq!(fold_romaji("di"), "ji");
    assert_eq!(fold_romaji("du"), "zu");
    assert_eq!(fold_romaji("sya"), "sha");
    assert_eq!(fold_romaji("tyo"), "cho");
    assert_eq!(fold_romaji("zya"), "ja");
    assert_eq!(fold_romaji("jyu"), "ju");
    assert_eq!(fold_romaji("jyo"), "jo");
    assert_eq!(fold_romaji("tsu"), "tsu");
    assert_eq!(fold_romaji("ka"), "ka");
    assert_eq!(fold_romaji("tutu"), "tsutsu");
    assert_eq!(fold_romaji("syu"), "shu");
    assert_eq!(fold_romaji("zyo"), "jo");
}

#[test]
fn input_is_normalized_and_folded() {
    assert_eq!(normalize_input("  TU "), "tsu");
    assert_eq!(normalize_input("Si Ti"), "shichi");
    assert_eq!(normalize_input("ka"), "ka");
    assert_eq!(normalize_input(" Tsu"), normalize_input("tu"));
}

#[test]
fn answers_match_in_normal_form() {
    assert!(answers_match(" KA ", "ka"));
    assert!(answers_match("k a", "Ka"));
    assert!(!answers_match("ka", "ga"));
    assert!(!answers_match("tu", "tsu"));
    assert!(answers_match("", "  "));
}

#[test]
fn kana_table_holds_both_scripts() {
    assert_eq!(KANA_COUNT, 142);
    assert_eq!(KANA_CHARACTERS.len(), KANA_ROMAJI.len());
    let table = get_all_kana();
    assert_eq!(table.len(), 142);
    assert_eq!(table[0].character, "あ");
    assert_eq!(table[0].romaji, "a");
    assert_eq!(table[141].character, "ポ");
    assert_eq!(table[141].romaji, "po");
    assert_eq!(kana_at(71).character, "ア");
    assert_eq!(kana_at(71), table[71]);
    for (i, kana) in table.iter().enumerate() {
        assert_eq!(kana.character, KANA_CHARACTERS[i]);
        assert_eq!(kana.romaji, KANA_ROMAJI[i]);
    }
}

#[test]
fn first_kana_of_a_reading_is_found() {
    assert_eq!(find_by_romaji("a"), Some(0));
    assert_eq!(find_by_romaji("ji"), Some(52));
    assert_eq!(find_by_romaji("po"), Some(70));
    assert_eq!(find_by_romaji("xyz"), None);
    assert_eq!(find_by_romaji(""), None);
}

#[test]
fn explanation_names_the_right_answer() {
    assert_eq!(
        FeedbackGenerator::generate_explanation("あ", "a", " xyz "),
        "正确答案是 あ (a)。 你输入了: 'xyz'。 请继续加油！"
    );
}

#[test]
fn explanation_tells_which_kana_was_meant() {
    assert_eq!(
        FeedbackGenerator::generate_explanation("あ", "a", "ka\n"),
        "正确答案是 あ (a)。 你输入了: 'ka'。 请继续加油！\n你输入的 'ka' 对应的假名是 'か'。"
    );
}

#[test]
fn explanation_has_no_hint_for_the_kana_itself() {
    assert_eq!(
        FeedbackGenerator::generate_explanation("あ", "a", "a"),
        "正确答案是 あ (a)。 你输入了: 'a'。 请继续加油！"
    );
    assert_eq!(
        FeedbackGenerator::generate_explanation("ア", "a", "a"),
        "正确答案是 ア (a)。 你输入了: 'a'。 请继续加油！\n你输入的 'a' 对应的假名是 'あ'。"
    );
}

#[test]
fn numbers_in_decimal() {
    assert_eq!(decimal_text(0), "0");
    assert_eq!(decimal_text(7), "7");
    assert_eq!(decimal_text(10), "10");
    assert_eq!(decimal_text(1_234_567_890), "1234567890");
    assert_eq!(decimal_text(u64::MAX), "18446744073709551615");
}

#[test]
fn durations_as_text() {
    assert_eq!(format_duration(0), "00:00");
    assert_eq!(format_duration(59), "00:59");
    assert_eq!(format_duration(60), "01:00");
    assert_eq!(format_duration(3_599), "59:59");
    assert_eq!(format_duration(3_600), "01:00:00");
    assert_eq!(format_duration(3_661), "01:01:01");
    assert_eq!(format_duration(86_399), "23:59:59");
    assert_eq!(format_duration(360_000), "100:00:00");
}
