use cupsbackend::options::{split_option, Options};
use cupsbackend::text::{char_is_whitespace, split_words};
use std::collections::HashMap;

fn value<'a>(options: &'a Options, key: &str) -> Option<&'a str> {
    options.get(key).map(|v| v.as_str())
}

#[test]
fn options_are_lowercased_and_default_to_true() {
    let options = Options::parse("a=1 B=Two noval");
    assert_eq!(options.len(), 3);
    assert_eq!(value(&options, "a"), Some("1"));
    assert_eq!(value(&options, "b"), Some("two"));
    assert_eq!(value(&options, "noval"), Some("true"));
    assert_eq!(value(&options, "B"), None);
}

#[test]
fn later_duplicate_key_wins() {
    let options = Options::parse("x=1 x=2");
    assert_eq!(options.len(), 1);
    assert_eq!(value(&options, "x"), Some("2"));
}

#[test]
fn duplicate_keys_are_matched_after_lowercasing() {
    let options = Options::parse("Media=A4 media=Letter MEDIA");
    assert_eq!(options.len(), 1);
    assert_eq!(value(&options, "media"), Some("true"));
}

#[test]
fn empty_and_blank_option_texts_give_no_options() {
    assert_eq!(Options::parse("").len(), 0);
    assert_eq!(Options::parse("   \t\n ").len(), 0);
    assert_eq!(value(&Options::parse(""), "a"), None);
}

#[test]
fn option_splits_at_the_first_equals_sign() {
    let options = Options::parse("k=v=w =lonely empty=");
    assert_eq!(options.len(), 3);
    assert_eq!(value(&options, "k"), Some("v=w"));
    assert_eq!(value(&options, ""), Some("lonely"));
    assert_eq!(value(&options, "empty"), Some(""));
}

#[test]
fn split_option_gives_key_and_value() {
    assert_eq!(split_option("Sides=Two-Sided"), ("sides".to_string(), "two-sided".to_string()));
    assert_eq!(split_option("Collate"), ("collate".to_string(), "true".to_string()));
    assert_eq!(split_option("ÄB=ÖÜ"), ("äb".to_string(), "öü".to_string()));
    assert_eq!(split_option("="), (String::new(), String::new()));
}

#[test]
fn insert_overwrites_and_get_finds() {
    let mut options = Options::new();
    assert_eq!(options.len(), 0);
    options.insert("a".to_string(), "1".to_string());
    options.insert("b".to_string(), "2".to_string());
    options.insert("a".to_string(), "3".to_string());
    assert_eq!(options.len(), 2);
    assert_eq!(value(&options, "a"), Some("3"));
    assert_eq!(value(&options, "b"), Some("2"));
    assert_eq!(value(&options, "c"), None);
}

#[test]
fn options_agree_with_a_hash_map_filled_in_order() {
    let samples = [
        "a=1 B=Two noval",
        "x=1 x=2",
        "  job-sheets=none,none   media=iso_a4_210x297mm\tnumber-up=1 ",
        "Q q=1 Q=2 q",
        "a==b =c d= = ==",
        "\u{3000}wide\u{2003}space=Yes\u{a0}nbsp",
    ];
    for raw in samples.iter() {
        let mut expected: HashMap<String, String> = HashMap::new();
        for opt in raw.split_whitespace() {
            let mut kv = opt.splitn(2, '=');
            if let Some(k) = kv.next() {
                let v = kv.next().unwrap_or("true");
                expected.insert(k.to_lowercase(), v.to_lowercase());
            }
        }
        let options = Options::parse(raw);
        assert_eq!(options.len(), expected.len(), "input {:?}", raw);
        for (k, v) in expected.iter() {
            assert_eq!(value(&options, k), Some(v.as_str()), "input {:?} key {:?}", raw, k);
        }
    }
}

#[test]
fn words_are_split_at_runs_of_white_space() {
    assert_eq!(split_words("a=1 B=Two noval"), vec!["a=1", "B=Two", "noval"]);
    assert_eq!(split_words("  lead\t\ttrail \n"), vec!["lead", "trail"]);
    assert_eq!(split_words("one"), vec!["one"]);
    assert!(split_words("").is_empty());
    assert!(split_words(" \u{2028}\u{85}").is_empty());
}

#[test]
fn words_agree_with_the_standard_splitter() {
    let samples = [
        "",
        " ",
        "a",
        " a",
        "a ",
        "a  b\tc\nd\re\u{b}f\u{c}g",
        "\u{a0}x\u{1680}y\u{2000}z\u{200a}w\u{202f}v\u{205f}u\u{3000}t",
        "zero\u{200b}width \u{180e}mongolian",
        "é ü  ß",
    ];
    for raw in samples.iter() {
        let expected: Vec<String> = raw.split_whitespace().map(|w| w.to_string()).collect();
        assert_eq!(split_words(raw), expected, "input {:?}", raw);
    }
}

#[test]
fn white_space_agrees_with_the_standard_predicate_on_every_character() {
    let mut n: u32 = 0;
    while n <= 0x10FFFF {
        if let Some(c) = char::from_u32(n) {
            assert_eq!(char_is_whitespace(c), c.is_whitespace(), "U+{:04X}", n);
        }
        n += 1;
    }
}

#[test]
fn pairs_list_each_key_once() {
    let options = Options::parse("b=2 a=1 B=3");
    let mut pairs: Vec<(String, String)> = options.pairs().clone();
    pairs.sort();
    assert_eq!(
        pairs,
        vec![("a".to_string(), "1".to_string()), ("b".to_string(), "3".to_string())]
    );
}
