use little_censor::mask::mask_chars;
use little_censor::pattern::{regex_censor, Matcher};
use little_censor::text::utf8_width;
use little_censor::Error;

#[test]
fn widths_follow_utf8() {
    assert_eq!(utf8_width('a'), 1);
    assert_eq!(utf8_width('é'), 2);
    assert_eq!(utf8_width('훳'), 3);
    assert_eq!(utf8_width('😀'), 4);
}

#[test]
fn byte_spans_mask_whole_characters() {
    let chars: Vec<char> = "a훳b훶c".chars().collect();
    let out = mask_chars(&chars, &vec![(1, 4), (5, 8)]);
    assert_eq!(out.into_iter().collect::<String>(), "a*b*c");
    let out = mask_chars(&chars, &vec![(0, 0), (0, 5)]);
    assert_eq!(out.into_iter().collect::<String>(), "***훶c");
}

#[test]
fn no_spans_keep_text() {
    let chars: Vec<char> = "abc".chars().collect();
    assert_eq!(mask_chars(&chars, &vec![]), chars);
}

#[test]
fn matcher_pass_masks_in_place() {
    let m = Matcher::compile(r"\d+").unwrap();
    let mut s = String::from("a1b22c");
    regex_censor(&mut s, &m);
    assert_eq!(s, "a*b**c");
}

#[test]
fn matcher_rejects_bad_pattern() {
    assert!(matches!(Matcher::compile("[z-a]"), Err(Error::InvalidRegex)));
}
