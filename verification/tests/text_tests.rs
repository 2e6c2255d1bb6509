use meshfit::text::{append_zero_padded, chars_equal, chars_of, contains_chars, lower_chars};

#[test]
fn zero_padding_formats_like_std() {
    for n in [0usize, 5, 9, 10, 42, 99, 100, 999, 1000, 123456] {
        for w in 0..5usize {
            let mut s = String::new();
            append_zero_padded(&mut s, n, w);
            assert_eq!(s, format!("{:0w$}", n, w = w));
        }
    }
    let mut s = String::from("x");
    append_zero_padded(&mut s, usize::MAX, 2);
    assert_eq!(s, format!("x{}", usize::MAX));
}

#[test]
fn lower_casing_only_touches_ascii_letters() {
    let l = lower_chars(&chars_of("AbZ-9Ü"));
    assert_eq!(l.into_iter().collect::<String>(), "abz-9Ü");
}

#[test]
fn substring_search() {
    assert!(contains_chars(&chars_of("hello world"), &chars_of("o w")));
    assert!(contains_chars(&chars_of("abc"), &chars_of("")));
    assert!(!contains_chars(&chars_of("ab"), &chars_of("abc")));
    assert!(chars_equal(&chars_of("ab"), &chars_of("ab")));
    assert!(!chars_equal(&chars_of("ab"), &chars_of("aB")));
}
