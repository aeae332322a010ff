use backend::text::{
    ascii_alphanumeric, decimal_string, line_spans, scan, scan_back, span_string, spans_equal,
    split_spans, starts_with, str_eq, to_chars, trim_span, whitespace, word_span, CharClass, Span,
};

fn texts(s: &str, spans: &[Span]) -> Vec<String> {
    spans.iter().map(|span| span_string(s, *span)).collect()
}

fn whole(chars: &[char]) -> Span {
    Span { start: 0, end: chars.len() }
}

const SAMPLES: [&str; 14] = [
    "",
    "\n",
    "\r\n",
    "\r",
    "a",
    "a\n",
    "a\r\nb",
    "a\r\r\nb\n\n",
    "\n\na\rb\r",
    "one\ntwo\r\nthree\n\r\n",
    " \t x\u{a0}y \u{3000}z\u{85}\n",
    "żółw\r\n€uro\n",
    "/a//b/",
    "\ta\tb\t\t",
];

#[test]
fn whitespace_is_the_unicode_property() {
    for code in 0..=0x10FFFFu32 {
        if let Some(c) = char::from_u32(code) {
            assert_eq!(whitespace(c), c.is_whitespace(), "{code:#x}");
            assert_eq!(ascii_alphanumeric(c), c.is_ascii_alphanumeric(), "{code:#x}");
        }
    }
}

#[test]
fn character_classes_are_what_they_say() {
    assert!(CharClass::Whitespace.has(' '));
    assert!(!CharClass::Whitespace.has('x'));
    assert!(CharClass::NonWhitespace.has('x'));
    assert!(!CharClass::NonWhitespace.has('\u{2003}'));
    assert!(CharClass::Not('/').has(':'));
    assert!(!CharClass::Not('/').has('/'));
}

#[test]
fn runs_end_where_the_class_ends() {
    let chars = to_chars("  ab  cd ");
    assert_eq!(scan(&chars, 0, chars.len(), CharClass::Whitespace), 2);
    assert_eq!(scan(&chars, 2, chars.len(), CharClass::NonWhitespace), 4);
    assert_eq!(scan(&chars, 2, 3, CharClass::NonWhitespace), 3);
    assert_eq!(scan(&chars, 0, chars.len(), CharClass::Not('c')), 6);
    assert_eq!(scan(&chars, 0, chars.len(), CharClass::Not('z')), 9);
    assert_eq!(scan(&chars, 9, 9, CharClass::Not('z')), 9);
    assert_eq!(scan_back(&chars, 0, chars.len(), CharClass::Whitespace), 8);
    assert_eq!(scan_back(&chars, 0, 8, CharClass::NonWhitespace), 6);
    assert_eq!(scan_back(&chars, 7, 8, CharClass::NonWhitespace), 7);
    assert_eq!(scan_back(&chars, 0, 0, CharClass::Whitespace), 0);
}

#[test]
fn lines_are_those_of_std() {
    for sample in SAMPLES {
        let chars = to_chars(sample);
        assert_eq!(chars, sample.chars().collect::<Vec<char>>());
        let expected: Vec<String> = sample.lines().map(|l| l.to_string()).collect();
        assert_eq!(texts(sample, &line_spans(&chars)), expected, "{sample:?}");
    }
}

#[test]
fn fields_are_those_of_std() {
    for sample in SAMPLES {
        let chars = to_chars(sample);
        for sep in ['/', '\t', '\n', 'ż'] {
            let expected: Vec<String> = sample.split(sep).map(|l| l.to_string()).collect();
            assert_eq!(
                texts(sample, &split_spans(&chars, whole(&chars), sep)),
                expected,
                "{sample:?} {sep:?}"
            );
        }
    }
    let chars = to_chars("a,b,,c");
    let inner = split_spans(&chars, Span { start: 2, end: 5 }, ',');
    assert_eq!(texts("a,b,,c", &inner), vec!["b", "", ""]);
}

#[test]
fn trimming_and_words_are_those_of_std() {
    for sample in SAMPLES {
        let chars = to_chars(sample);
        assert_eq!(span_string(sample, trim_span(&chars, whole(&chars))), sample.trim());
        let mut words: Vec<String> = Vec::new();
        let mut rest = whole(&chars);
        loop {
            let (word, after) = word_span(&chars, rest);
            if word.start == word.end {
                break;
            }
            words.push(span_string(sample, word));
            rest = after;
        }
        let expected: Vec<String> = sample.split_whitespace().map(|w| w.to_string()).collect();
        assert_eq!(words, expected, "{sample:?}");
    }
}

#[test]
fn texts_are_compared_by_their_characters() {
    for a in SAMPLES {
        for b in SAMPLES {
            assert_eq!(str_eq(a, b), a == b);
            assert_eq!(starts_with(a, b), a.starts_with(b), "{a:?} {b:?}");
            let x = to_chars(a);
            let y = to_chars(b);
            assert_eq!(spans_equal(&x, whole(&x), &y, whole(&y)), a == b);
        }
    }
    let x = to_chars("abcabd");
    assert!(spans_equal(&x, Span { start: 0, end: 2 }, &x, Span { start: 3, end: 5 }));
    assert!(!spans_equal(&x, Span { start: 0, end: 3 }, &x, Span { start: 3, end: 6 }));
    assert!(!spans_equal(&x, Span { start: 0, end: 2 }, &x, Span { start: 3, end: 6 }));
}

#[test]
fn numbers_are_written_in_base_ten() {
    assert_eq!(decimal_string(0), "0");
    assert_eq!(decimal_string(7), "7");
    assert_eq!(decimal_string(10), "10");
    assert_eq!(decimal_string(12), "12");
    assert_eq!(decimal_string(1203405), "1203405");
    for n in (0..100_000usize).step_by(37) {
        assert_eq!(decimal_string(n), n.to_string());
    }
    assert_eq!(decimal_string(usize::MAX), usize::MAX.to_string());
}
