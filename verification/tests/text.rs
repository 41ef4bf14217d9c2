use build_proxy::text::{chars_of, contains, decimal_string, find_char, parse_i32, same_chars};

fn all_texts(alphabet: &[char], longest: usize) -> Vec<String> {
    let mut texts = vec![String::new()];
    let mut from = 0;
    for _ in 0..longest {
        let to = texts.len();
        for i in from..to {
            for c in alphabet {
                let mut longer = texts[i].clone();
                longer.push(*c);
                texts.push(longer);
            }
        }
        from = to;
    }
    texts
}

#[test]
fn characters_are_taken_apart() {
    assert_eq!(chars_of("aé\u{1f600}"), vec!['a', 'é', '\u{1f600}']);
    assert_eq!(chars_of(""), Vec::<char>::new());
}

#[test]
fn substrings_are_found_as_by_std() {
    for hay in all_texts(&['a', '/'], 6) {
        for needle in all_texts(&['a', '/'], 3) {
            assert_eq!(
                contains(&chars_of(&hay), &chars_of(&needle)),
                hay.contains(&needle),
                "{hay:?} {needle:?}"
            );
        }
    }
}

#[test]
fn ranges_are_compared() {
    let hay = chars_of("abcabc");
    assert!(same_chars(&hay, 3, 6, &chars_of("abc")));
    assert!(!same_chars(&hay, 2, 5, &chars_of("abc")));
    assert!(!same_chars(&hay, 3, 5, &chars_of("abc")));
    assert!(same_chars(&hay, 2, 2, &chars_of("")));
}

#[test]
fn first_occurrence_is_found() {
    assert_eq!(find_char(&chars_of("A=b=c"), '='), 1);
    assert_eq!(find_char(&chars_of("=b"), '='), 0);
    assert_eq!(find_char(&chars_of("abc"), '='), 3);
}

#[test]
fn integers_are_read_as_by_std() {
    let mut texts = all_texts(&['0', '7', '+', '-', ' '], 4);
    for text in [
        "2147483647",
        "2147483648",
        "-2147483648",
        "-2147483649",
        "+2147483647",
        "00000000000000000001",
        "99999999999999999999",
        "12a",
        "1_000",
        "\u{661}",
    ] {
        texts.push(text.to_string());
    }
    for text in texts {
        let chars = chars_of(&text);
        assert_eq!(
            parse_i32(&chars, 0, chars.len()),
            text.parse::<i32>().ok(),
            "{text:?}"
        );
    }
}

#[test]
fn integers_are_read_from_the_middle() {
    let chars = chars_of("ab-12cd");
    assert_eq!(parse_i32(&chars, 2, 5), Some(-12));
    assert_eq!(parse_i32(&chars, 2, 6), None);
}

#[test]
fn numbers_are_written_in_decimal() {
    for n in 0..=u16::MAX {
        assert_eq!(decimal_string(n), n.to_string());
    }
}

#[test]
fn numbers_are_read_back() {
    for n in [0u16, 9, 10, 4000, 65535] {
        let chars = chars_of(&decimal_string(n));
        assert_eq!(parse_i32(&chars, 0, chars.len()), Some(n as i32));
    }
}
