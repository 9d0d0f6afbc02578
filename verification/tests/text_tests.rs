use sas_game::text::{
    chars_of, contains_seq, count_in_range, range_eq, replace_in_range, split_ws_ranges, string_of,
    trim_range,
};

#[test]
fn trims_white_space() {
    let v = chars_of("  ab c \t");
    assert_eq!(trim_range(&v, 0, v.len()), (2, 6));
    let blank = chars_of("   ");
    let (a, b) = trim_range(&blank, 0, 3);
    assert_eq!(a, b);
}

#[test]
fn splits_words() {
    let v = chars_of("a  bc\td ");
    assert_eq!(split_ws_ranges(&v, 0, v.len()), vec![(0, 1), (3, 5), (6, 7)]);
    assert_eq!(string_of(&v, 3, 5), "bc");
}

#[test]
fn counts_and_compares() {
    let v = chars_of("{ { } }}");
    assert_eq!(count_in_range(&v, 0, v.len(), '}'), 3);
    assert_eq!(count_in_range(&v, 0, 3, '{'), 2);
    let w = chars_of("abc");
    assert!(range_eq(&chars_of("xabcx"), 1, 4, &w));
    assert!(!range_eq(&chars_of("xabcx"), 1, 5, &w));
}

#[test]
fn replaces_without_overlap() {
    let v = chars_of("aaa.tga.tga");
    let out = replace_in_range(&v, 0, v.len(), &chars_of(".tga"), &chars_of(".png"));
    assert_eq!(out.iter().collect::<String>(), "aaa.png.png");
    let v = chars_of("aaaa");
    let out = replace_in_range(&v, 0, v.len(), &chars_of("aa"), &chars_of("b"));
    assert_eq!(out.iter().collect::<String>(), "bb");
}

#[test]
fn finds_infix() {
    assert!(contains_seq(&chars_of("head_h.tga"), &chars_of("_h.")));
    assert!(!contains_seq(&chars_of("ab"), &chars_of("abc")));
    assert!(contains_seq(&chars_of(""), &chars_of("")));
}
