use gpt_sovits_rs::text_frontend::annotations::{
    find_matching_occurrence, parse_pinyin_override, parse_pinyin_overrides, RawPinyinOverride,
};
use gpt_sovits_rs::text_frontend::english::{load_cmudict, lookup, speak_word, spell_arpabet};
use gpt_sovits_rs::text_frontend::{
    G2PConverter, LanguageDetector, PinyinOverride, SymbolTable, TextFrontend, TextNormalizer,
};
use gpt_sovits_rs::Language;

const CMUDICT: &str = ";;; words\nHELLO\tHH AH0 L OW1\nWORLD\tW ER1 L D\nDON'T\tD OW1 N T\n";

/// The symbols of the second version: in order those that it shares with the first one, the
/// brackets, the Korean letters, and as many more as there are Cantonese ones.
fn symbols_json() -> String {
    let words = |list: &str| -> Vec<String> { list.split(' ').map(str::to_string).collect() };
    let mut symbols = words(
        "_ AA EE OO b c ch d f g h j k l m n p q r s sh t w x y z zh ! ? … , . - SP SP2 SP3 UNK \
         I N U a by cl dy e gy hy i ky my ny o py ry ts u v",
    );
    for final_part in words(
        "E En a ai an ang ao e ei en eng er i i0 ia ian iang iao ie in ing iong ir iu o ong ou u \
         ua uai uan uang ui un uo v van ve vn",
    ) {
        for tone in 1..=5 {
            symbols.push(format!("{final_part}{tone}"));
        }
    }
    symbols.extend(words(
        "AH0 S AH1 EY2 AE2 EH0 OW2 UH0 NG B G AY0 M AA0 F AO0 ER2 UH1 IY1 AH2 DH IY0 EY1 IH0 K W \
         IY2 T AA1 ER1 EH2 OY0 UH2 UW1 Z AW2 AW1 V UW2 AA2 ER AW0 UW0 R OW1 EH1 ZH AE0 IH2 IH Y \
         JH P AY1 EY0 OY2 TH HH D ER0 CH AO1 AE1 AO2 OY1 AY2 IH1 OW0 L SH",
    ));
    symbols.sort();
    symbols.extend(words("[ ]"));
    symbols.extend("ㄱㄲㄴㄷㄸㄹㅁㅂㅃㅅㅆㅇㅈㅉㅊㅋㅌㅍㅎㅏㅐㅓㅔㅗㅜㅡㅣ停空".chars().map(|c| c.to_string()));
    let mut i = 0;
    while symbols.len() < 732 {
        symbols.push(format!("Y#{i}"));
        i += 1;
    }
    let quoted: Vec<String> = symbols.iter().map(|s| format!("\"{s}\"")).collect();
    format!("[{}]", quoted.join(","))
}

fn table() -> SymbolTable {
    SymbolTable::new(&symbols_json()).ok().unwrap()
}

fn converter() -> G2PConverter {
    G2PConverter::new(CMUDICT).ok().unwrap()
}

fn frontend() -> TextFrontend {
    TextFrontend::new(&symbols_json(), CMUDICT).ok().unwrap()
}

#[test]
fn test_g2p_chinese_initials_finals() {
    let result = converter().convert("你好", Language::Chinese).ok().unwrap();
    assert!(result.contains("n "), "should have initial 'n'");
    assert!(result.contains("ao"), "should have final 'ao'");
    assert_eq!(result, "n i2 h ao3", "third-tone sandhi should apply");
}

#[test]
fn test_g2p_english() {
    let result = converter().convert("Hello", Language::English);
    assert!(result.is_ok());
}

#[test]
fn test_g2p_japanese() {
    let result = converter().convert("こんにちは", Language::Japanese);
    assert!(result.is_ok());
}

#[test]
fn test_g2p_korean() {
    let result = converter().convert("안녕하세요", Language::Korean);
    assert!(result.is_ok());
}

#[test]
fn test_bu_sandhi() {
    let result = converter().convert("不怕", Language::Chinese).ok().unwrap();
    assert!(result.contains("u2"), "不 before 4th tone should become tone 2: got {}", result);
}

#[test]
fn test_yi_sandhi() {
    let converter = converter();
    let result = converter.convert("一天", Language::Chinese).ok().unwrap();
    assert!(result.contains("i4"), "一 before non-4th-tone should become tone 4: got {}", result);

    let result2 = converter.convert("一段", Language::Chinese).ok().unwrap();
    assert!(result2.contains("i2"), "一 before 4th-tone should become tone 2: got {}", result2);
}

#[test]
fn test_neural_sandhi_word() {
    let (phones, _) = converter().convert_chinese_with_word2ph("知识").ok().unwrap();
    assert!(phones.contains("ir5"), "知识 last char should be tone 5: got {}", phones);
}

#[test]
fn test_three_sandhi_three_char() {
    let (phones, _) = converter().convert_chinese_with_word2ph("所有人").ok().unwrap();
    assert!(phones.contains("uo2"), "所 should change to tone 2 in 所有人: got {}", phones);
}

#[test]
fn test_detect_chinese() {
    let detector = LanguageDetector::new().ok().unwrap();
    assert_eq!(detector.detect("你好世界").ok().unwrap(), Language::Chinese);
}

#[test]
fn test_detect_english() {
    let detector = LanguageDetector::new().ok().unwrap();
    assert_eq!(detector.detect("Hello World").ok().unwrap(), Language::English);
}

#[test]
fn test_detect_japanese() {
    let detector = LanguageDetector::new().ok().unwrap();
    assert_eq!(detector.detect("こんにちは").ok().unwrap(), Language::Japanese);
}

#[test]
fn test_detect_korean() {
    let detector = LanguageDetector::new().ok().unwrap();
    assert_eq!(detector.detect("안녕하세요").ok().unwrap(), Language::Korean);
}

#[test]
fn test_detect_mixed_zh_en() {
    let detector = LanguageDetector::new().ok().unwrap();
    let result = detector.detect("Hello 你好 World").ok().unwrap();
    assert!(result == Language::Chinese || result == Language::English);
}

#[test]
fn test_detect_with_confidence() {
    let detector = LanguageDetector::new().ok().unwrap();
    let (lang, matched, total) = detector.detect_with_confidence("你好世界").ok().unwrap();
    let confidence = matched as f32 / total as f32;
    assert_eq!(lang, Language::Chinese);
    assert!(confidence > 0.5);
}

#[test]
fn test_chinese_alignment_uses_normalized_punctuation() {
    let text = "中道崩殂，今天下三分。";
    let (ids, word2ph, normalized) = frontend()
        .process_with_word2ph_and_text(text, Language::Chinese)
        .ok()
        .unwrap();

    assert_eq!(normalized, "中道崩殂,今天下三分.");
    assert_eq!(word2ph.len(), normalized.chars().count());
    assert_eq!(word2ph[4], 1);
    assert_eq!(word2ph.last(), Some(&1));
    assert_eq!(word2ph.iter().sum::<usize>(), ids.len());
}

#[test]
fn pinyin_annotations_override_chinese_g2p_and_are_removed_from_model_text() {
    let frontend = frontend();

    let phones = frontend
        .get_phonemes("好[hao4]学", Language::Chinese)
        .ok()
        .unwrap();
    let (ids, word2ph, normalized) = frontend
        .process_with_word2ph_and_text("好[hao4]学", Language::Chinese)
        .ok()
        .unwrap();

    assert_eq!(normalized, "好学");
    assert!(phones.starts_with("h ao4"), "{phones}");
    assert_eq!(word2ph.len(), normalized.chars().count());
    assert_eq!(word2ph.iter().sum::<usize>(), ids.len());
}

#[test]
fn pinyin_annotations_support_vowel_v_and_light_tone() {
    let phones = frontend()
        .get_phonemes("女[nv3]的[de5]", Language::Chinese)
        .ok()
        .unwrap();

    assert!(phones.contains("n v3"), "{phones}");
    assert!(phones.contains("d e5"), "{phones}");
}

#[test]
fn pinyin_annotations_reject_invalid_tones() {
    let err = frontend()
        .get_phonemes("好[hao9]", Language::Chinese)
        .err()
        .unwrap()
        .message();

    assert!(err.contains("unsupported tone"));
}

#[test]
fn test_normalize_whitespace() {
    let normalizer = TextNormalizer::new();
    let result = normalizer.normalize("hello    world").ok().unwrap();
    assert_eq!(result, "hello world");
}

#[test]
fn test_normalize_punctuation() {
    let normalizer = TextNormalizer::new();
    let result = normalizer.normalize("hello (world)").ok().unwrap();
    assert!(result.contains("（"));
}

#[test]
fn test_expand_single_digit() {
    let normalizer = TextNormalizer::new();
    let result = normalizer.normalize("我今年 5 岁").ok().unwrap();
    assert!(result.contains("五"));
}

#[test]
fn test_expand_two_digits() {
    let normalizer = TextNormalizer::new();
    let result = normalizer.normalize("今年 25 年").ok().unwrap();
    assert!(result.contains("二十") || result.contains("五"));
}

#[test]
fn test_expand_abbreviations() {
    let normalizer = TextNormalizer::new();
    let result = normalizer.normalize("Mr. Smith").ok().unwrap();
    assert!(result.contains("Mister"));
}

#[test]
fn test_encode_chinese() {
    let table = table();
    let ids = table.encode("n i3 h ao3 sh ir4 j ie4").ok().unwrap();
    assert_eq!(ids.len(), 8);
    assert_eq!(table.get_id("n"), Some(227));
    assert_eq!(table.get_id("i3"), Some(168));
    assert_eq!(table.get_id("ao3"), Some(119));
    assert_eq!(table.get_id("sh"), Some(251));
    assert_eq!(table.get_id("ir4"), Some(214));
    assert_eq!(table.get_id("j"), Some(221));
    assert_eq!(table.get_id("ie4"), Some(194));
}

#[test]
fn test_symbol_table_len() {
    assert_eq!(table().len(), 732);
}

#[test]
fn encoding_takes_the_longest_symbol_and_skips_what_has_none() {
    let table = SymbolTable::new("[\"s\", \"sh\", \"h\"]").ok().unwrap();
    assert_eq!(table.encode("sh s?h").ok().unwrap(), vec![1, 0, 2]);
    assert_eq!(table.decode(&[1, 9, 0]).ok().unwrap(), "shs");
    assert_eq!(table.get_symbol(1), Some("sh"));
    assert_eq!(table.get_symbol(3), None);
    assert!(!table.is_empty());
}

#[test]
fn a_table_of_symbols_must_be_a_list_of_strings() {
    assert!(SymbolTable::new("[1, 2]").is_err());
    assert!(SymbolTable::new("{").is_err());
}

#[test]
fn dictionary_words_are_read_and_others_spelled() {
    let dict = load_cmudict(CMUDICT);
    assert_eq!(lookup(&dict, "hello"), Some("HH AH0 L OW1"));
    assert_eq!(lookup(&dict, "zzz"), None);
    assert_eq!(speak_word(&dict, "World"), "W ER1 L D");
    assert_eq!(speak_word(&dict, "hello-world"), "HH AH0 L OW1 W ER1 L D");
    assert_eq!(spell_arpabet("tts"), "T IY1 T IY1 EH1 S");
    assert_eq!(spell_arpabet("a\u{141}\u{4e41}b"), "EY1 B IY1");
    assert_eq!(converter().convert("Hello", Language::English).ok().unwrap(), "HH AH0 L OW1");
}

#[test]
fn spoken_marks_stand_for_themselves() {
    let (phones, counts) = converter().convert_chinese_with_word2ph("你,好.").ok().unwrap();
    assert!(phones.contains(" , "), "{phones}");
    assert!(phones.ends_with(" ."), "{phones}");
    assert_eq!(counts.len(), 4);
    assert_eq!(counts[1], 1);
}

#[test]
fn mixed_text_counts_each_character() {
    let text = "你好hello";
    let (phones, counts) = converter().convert_chinese_with_word2ph(text).ok().unwrap();
    assert_eq!(counts.len(), 7);
    assert_eq!(counts.iter().sum::<usize>(), phones.split(' ').count());
}

#[test]
fn annotations_are_read() {
    let tone = parse_pinyin_override("hao4").ok().unwrap();
    assert_eq!(tone.base, "hao");
    assert_eq!(tone.tone, 4);
    assert!(parse_pinyin_override("4").err().unwrap().message().contains("missing syllable"));
    let (clean, found) = parse_pinyin_overrides("a好[hao4]b").ok().unwrap();
    assert_eq!(clean, "a好b");
    assert_eq!(found.len(), 1);
    assert_eq!(found[0].clean_index, 1);
    assert_eq!(found[0].ch, '好');
}

#[test]
fn an_annotation_follows_its_character() {
    let raw = |index: usize| RawPinyinOverride {
        clean_index: index,
        ch: '好',
        pinyin: PinyinOverride { base: "hao".to_string(), tone: 4 },
    };
    let clean: Vec<char> = "好的好".chars().collect();
    let normalized: Vec<char> = "x好的y好".chars().collect();
    assert_eq!(find_matching_occurrence(&clean, &normalized, &raw(2)).ok(), Some(4));
    let gone: Vec<char> = "的".chars().collect();
    let error = find_matching_occurrence(&clean, &gone, &raw(0)).err().unwrap();
    assert!(error.message().contains("could not map pinyin annotation"));
}

#[test]
fn numbers_are_read_in_chinese() {
    let normalizer = TextNormalizer::new();
    assert_eq!(normalizer.expand_number_sequence("25"), "二十五");
    assert_eq!(normalizer.digit_to_chinese('7'), '七');
    assert_eq!(
        normalizer.normalize_chinese_model_text("好，的。！？"),
        "好,的.!?"
    );
}

#[test]
fn every_way_of_processing_gives_the_same_identifiers() {
    let frontend = frontend();
    let text = "你好,世界.";
    let ids = frontend.process(text, Language::Chinese).ok().unwrap();
    let (counted, word2ph) = frontend.process_with_word2ph(text, Language::Chinese).ok().unwrap();
    let (read, _, _) = frontend
        .process_with_word2ph_and_text(text, Language::Chinese)
        .ok()
        .unwrap();
    assert_eq!(ids, counted);
    assert_eq!(ids, read);
    assert_eq!(word2ph, vec![2, 2, 1, 2, 2, 1]);
}
