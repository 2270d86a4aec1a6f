use little_censor::censor::{
    censor, censor_with, fix_sentence, mask_patterns, mask_patterns_with, BuiltinMatchers, CensorTypes,
    Censored, Printable,
};
use little_censor::Error;

fn run(sentence: &str, types: Vec<CensorTypes>, arg: Option<String>) -> Censored {
    censor(String::from(sentence), types.into_boxed_slice(), arg).unwrap()
}

#[test]
fn censor_word() {
    let sentence = String::from("fuck world");
    let censored = censor(sentence, Box::new([]), None).unwrap();
    assert_eq!(censored.original(), "fuck world");
    assert_eq!(censored.censored(), "f*** world");
    assert_eq!(censored.valid(), false);
}

#[test]
fn utf8_chars() {
    let sentence = String::from("fuck 훳훶휌흢흦힄처탄탉채철체횩 fuck");
    let censored = censor(sentence, Box::new([]), None).unwrap();
    assert_eq!(censored.original(), "fuck 훳훶휌흢흦힄처탄탉채철체횩 fuck");
    assert_eq!(censored.censored(), "f*** 훳훶휌흢흦힄처탄탉채철체횩 f***");
    assert_eq!(censored.valid(), false);
}

#[test]
fn link_regex_censor() {
    let sentence = String::from("go to this website: https://example.net/");
    let censored = censor(sentence, Box::new([CensorTypes::Link]), None).unwrap();
    assert_eq!(censored.original(), "go to this website: https://example.net/");
    assert_eq!(censored.censored(), "go to this website: ********************");
    assert_eq!(censored.valid(), false);
}

#[test]
fn ip_regex_censor() {
    let sentence = String::from("ip leak 127.0.0.1");
    let censored = censor(sentence, Box::new([CensorTypes::IP]), None).unwrap();
    assert_eq!(censored.original(), "ip leak 127.0.0.1");
    assert_eq!(censored.censored(), "ip leak *********");
    assert_eq!(censored.valid(), false);
}

#[test]
fn email_regex_censor() {
    let sentence = String::from("email leak example@example.net");
    let censored = censor(sentence, Box::new([CensorTypes::Email]), None).unwrap();
    assert_eq!(censored.original(), "email leak example@example.net");
    assert_eq!(censored.censored(), "email leak *******************");
    assert_eq!(censored.valid(), false);
}

#[test]
fn clean_text_is_unchanged() {
    let c = run("hello world", vec![CensorTypes::Link, CensorTypes::IP, CensorTypes::Email], None);
    assert_eq!(c.censored(), "hello world");
    assert!(c.valid());
    assert!(!c.changed());
}

#[test]
fn changed_flag_follows_text() {
    let c = run("fuck world", vec![], None);
    assert!(c.changed());
    assert_eq!(c.changed(), c.censored() != c.original());
}

#[test]
fn custom_without_pattern_fails() {
    let r = censor(String::from("some text"), Box::new([CensorTypes::Custom]), None);
    assert_eq!(r, Err(Error::NoArgs));
    let r = censor(
        String::from("some text"),
        Box::new([CensorTypes::Link, CensorTypes::Custom]),
        None,
    );
    assert_eq!(r, Err(Error::NoArgs));
}

#[test]
fn custom_invalid_pattern_fails() {
    let r = censor(
        String::from("some text"),
        Box::new([CensorTypes::Custom]),
        Some(String::from("(unclosed")),
    );
    assert_eq!(r, Err(Error::InvalidRegex));
}

#[test]
fn custom_pattern_masks_matches() {
    let c = run("call 555-1234 now", vec![CensorTypes::Custom], Some(String::from(r"\d{3}-\d{4}")));
    assert_eq!(c.censored(), "call ******** now");
}

#[test]
fn pattern_argument_ignored_without_custom() {
    let c = run("call 555-1234 now", vec![], Some(String::from("(unclosed")));
    assert_eq!(c.censored(), "call 555-1234 now");
}

#[test]
fn order_and_repetition_do_not_matter() {
    let text = "mail a@b.net or visit http://example.com/x from 10.0.0.1";
    let a = run(text, vec![CensorTypes::Email, CensorTypes::Link, CensorTypes::IP, CensorTypes::Link], None);
    let b = run(text, vec![CensorTypes::IP, CensorTypes::Link, CensorTypes::Email], None);
    assert_eq!(a, b);
}

#[test]
fn every_match_is_masked() {
    let c = run("a 1.2.3.4 b 10.20.30.40 c", vec![CensorTypes::IP], None);
    assert_eq!(c.censored(), "a ******* b *********** c");
}

#[test]
fn mask_counts_characters_not_bytes() {
    let c = run("é x@é.net é", vec![CensorTypes::Email], None);
    assert_eq!(c.censored(), "é ******* é");
    assert_eq!(c.censored().chars().count(), c.original().chars().count());
}

#[test]
fn censoring_twice_changes_nothing_more() {
    let types = vec![CensorTypes::Link, CensorTypes::IP, CensorTypes::Email];
    let text = "go to https://example.net/ or 127.0.0.1 or me@example.net";
    let once = run(text, types.clone(), None);
    let twice = run(&once.censored(), types, None);
    assert_eq!(twice.censored(), once.censored());
    assert!(twice.valid());
}

#[test]
fn pattern_phase_alone() {
    let types = vec![CensorTypes::Link];
    let r = mask_patterns("see https://example.net/ now", &types, &None).unwrap();
    assert_eq!(r, "see ******************** now");
    assert_eq!(mask_patterns("x", &vec![CensorTypes::Custom], &None), Err(Error::NoArgs));
}

#[test]
fn overlay_restores_unmasked_characters() {
    assert_eq!(fix_sentence(String::from("Hello World"), String::from("hello w****")), "Hello W****");
}

#[test]
fn overlay_truncates_to_shorter_text() {
    assert_eq!(fix_sentence(String::from("abcdef"), String::from("a*c")), "a*c");
    assert_eq!(fix_sentence(String::from("ab"), String::from("*bcd")), "*b");
    assert_eq!(fix_sentence(String::new(), String::from("***")), "");
}

#[test]
fn reconcile_sets_flag() {
    let c = Censored::reconcile(String::from("abc"), String::from("abc"), String::from("ABC"));
    assert_eq!(c.censored(), "abc");
    assert!(c.valid());
    let c = Censored::reconcile(String::from("abc"), String::from("a*c"), String::from("A*C"));
    assert_eq!(c.censored(), "a*c");
    assert!(!c.valid());
}

#[test]
fn debug_text_lists_fields() {
    let c = run("fuck world", vec![], None);
    assert_eq!(
        c.debug_str(),
        "Censored { original: fuck world, censored: f*** world, valid: false }"
    );
    assert_eq!(c.describe(), c.debug_str());
}

#[test]
fn shared_builtins_match_per_call_compilation() {
    let builtins = BuiltinMatchers::new().unwrap();
    let text = "ip leak 127.0.0.1, mail me@example.net";
    for _ in 0..2 {
        let shared = censor_with(
            &builtins,
            String::from(text),
            Box::new([CensorTypes::IP, CensorTypes::Email]),
            None,
        )
        .unwrap();
        let fresh = run(text, vec![CensorTypes::IP, CensorTypes::Email], None);
        assert_eq!(shared, fresh);
        let masked = mask_patterns_with(
            &builtins,
            text,
            &vec![CensorTypes::IP, CensorTypes::Email],
            &None,
        )
        .unwrap();
        assert_eq!(masked, "ip leak *********, mail **************");
    }
}

#[test]
fn shared_builtins_report_argument_errors() {
    let builtins = BuiltinMatchers::new().unwrap();
    let types = vec![CensorTypes::Custom];
    assert_eq!(mask_patterns_with(&builtins, "x", &types, &None), Err(Error::NoArgs));
    assert_eq!(
        mask_patterns_with(&builtins, "x", &types, &Some(String::from("("))),
        Err(Error::InvalidRegex)
    );
    assert_eq!(
        mask_patterns_with(&builtins, "a1b2", &types, &Some(String::from(r"\d"))).unwrap(),
        "a*b*"
    );
}
