use ledger_service::decimal::{parse_i64, render_i64};
use ledger_service::fault::LedgerError;
use ledger_service::request::{read_verb, Request, Verb};
use ledger_service::text::{
    chars_of, separates, skip_spaces, skip_spaces_back, skip_word, trimmed, word_spans, Span,
};

fn malformed() -> Result<Request, LedgerError> {
    Err(LedgerError::MalformedRequest)
}

fn spans_of(line: &str) -> Vec<(usize, usize)> {
    word_spans(&chars_of(line)).iter().map(|s| (s.start, s.end)).collect()
}

#[test]
fn parse_reads_each_command() {
    assert_eq!(
        Request::parse("auth sesame bob"),
        Ok(Request::Auth { key: "sesame".to_string(), account: "bob".to_string() })
    );
    assert_eq!(Request::parse("init"), Ok(Request::Init));
    assert_eq!(Request::parse("balance"), Ok(Request::Balance));
    assert_eq!(Request::parse("delete"), Ok(Request::Delete));
    assert_eq!(Request::parse("alter 50"), Ok(Request::Alter { delta: 50 }));
    assert_eq!(Request::parse("alter -50"), Ok(Request::Alter { delta: -50 }));
    assert_eq!(Request::parse("alter +100"), Ok(Request::Alter { delta: 100 }));
    assert_eq!(
        Request::parse("echo hello world"),
        Ok(Request::Echo { text: "hello world".to_string() })
    );
    assert_eq!(Request::parse("exit"), Ok(Request::Exit));
}

#[test]
fn parse_splits_on_any_run_of_separators() {
    assert_eq!(
        Request::parse(" \t auth \u{a0} k\u{e9}y \u{3000}\u{2003} b\u{f6}b \r"),
        Ok(Request::Auth { key: "k\u{e9}y".to_string(), account: "b\u{f6}b".to_string() })
    );
    assert_eq!(Request::parse("\talter\t\t-0007\n"), Ok(Request::Alter { delta: -7 }));
    assert_eq!(Request::parse("  balance  "), Ok(Request::Balance));
    // A zero-width space is no separator.
    assert_eq!(Request::parse("init\u{200b}"), malformed());
}

#[test]
fn parse_counts_the_arguments() {
    assert_eq!(Request::parse(""), malformed());
    assert_eq!(Request::parse(" \t "), malformed());
    assert_eq!(Request::parse("auth"), malformed());
    assert_eq!(Request::parse("auth key"), malformed());
    assert_eq!(Request::parse("auth key account more"), malformed());
    assert_eq!(Request::parse("init x"), malformed());
    assert_eq!(Request::parse("balance x"), malformed());
    assert_eq!(Request::parse("delete x"), malformed());
    assert_eq!(Request::parse("exit x"), malformed());
    assert_eq!(Request::parse("alter"), malformed());
    assert_eq!(Request::parse("alter 1 2"), malformed());
}

#[test]
fn parse_matches_command_names_exactly() {
    assert_eq!(Request::parse("Init"), malformed());
    assert_eq!(Request::parse("ini"), malformed());
    assert_eq!(Request::parse("inits"), malformed());
    assert_eq!(Request::parse("balances"), malformed());
    assert_eq!(Request::parse("deleted"), malformed());
    assert_eq!(Request::parse("altar 5"), malformed());
    assert_eq!(Request::parse("echo!"), malformed());
    assert_eq!(Request::parse("quit"), malformed());
    assert_eq!(Request::parse("hello"), malformed());
}

#[test]
fn parse_needs_an_integer_delta() {
    assert_eq!(Request::parse("alter x"), malformed());
    assert_eq!(Request::parse("alter 1x"), malformed());
    assert_eq!(Request::parse("alter 0x10"), malformed());
    assert_eq!(Request::parse("alter 1e3"), malformed());
    assert_eq!(Request::parse("alter -"), malformed());
    assert_eq!(Request::parse("alter 9223372036854775808"), malformed());
    assert_eq!(
        Request::parse("alter -9223372036854775808"),
        Ok(Request::Alter { delta: i64::MIN })
    );
}

#[test]
fn parse_keeps_the_text_of_echo() {
    assert_eq!(Request::parse("echo"), Ok(Request::Echo { text: String::new() }));
    assert_eq!(Request::parse("echo \t "), Ok(Request::Echo { text: String::new() }));
    assert_eq!(
        Request::parse("\t echo \t one  two\tthree \t"),
        Ok(Request::Echo { text: "one  two\tthree".to_string() })
    );
    assert_eq!(
        Request::parse("echo auth key account extra words"),
        Ok(Request::Echo { text: "auth key account extra words".to_string() })
    );
}

#[test]
fn parse_i64_reads_signed_decimals() {
    assert_eq!(parse_i64("0"), Some(0));
    assert_eq!(parse_i64("-0"), Some(0));
    assert_eq!(parse_i64("+0"), Some(0));
    assert_eq!(parse_i64("42"), Some(42));
    assert_eq!(parse_i64("+42"), Some(42));
    assert_eq!(parse_i64("-42"), Some(-42));
    assert_eq!(parse_i64("000123"), Some(123));
    assert_eq!(parse_i64("9223372036854775807"), Some(i64::MAX));
    assert_eq!(parse_i64("-9223372036854775808"), Some(i64::MIN));
    assert_eq!(parse_i64("00000000000000000000009223372036854775807"), Some(i64::MAX));
}

#[test]
fn parse_i64_refuses_everything_else() {
    for text in [
        "",
        "+",
        "-",
        "--1",
        "+-1",
        "-+1",
        "1-",
        " 1",
        "1 ",
        "1_000",
        "1,000",
        "1.0",
        "a",
        "12a",
        "\u{661}\u{662}",
        "9223372036854775808",
        "-9223372036854775809",
        "18446744073709551616",
        "99999999999999999999999999999999999999999",
        "-99999999999999999999999999999999999999999",
        "99999999999999999999x",
    ] {
        assert_eq!(parse_i64(text), None, "text {:?}", text);
    }
}

#[test]
fn parse_i64_agrees_with_the_standard_library() {
    for text in ["7", "-7", "+7", "007", "", "+", "-", "1a", "9223372036854775807",
        "9223372036854775808", "-9223372036854775808", "-9223372036854775809", "٣"]
    {
        assert_eq!(parse_i64(text), text.parse::<i64>().ok(), "text {:?}", text);
    }
}

#[test]
fn render_i64_writes_decimals() {
    assert_eq!(render_i64(0), "0");
    assert_eq!(render_i64(7), "7");
    assert_eq!(render_i64(10), "10");
    assert_eq!(render_i64(-1), "-1");
    assert_eq!(render_i64(1234567890), "1234567890");
    assert_eq!(render_i64(-900), "-900");
    assert_eq!(render_i64(i64::MAX), "9223372036854775807");
    assert_eq!(render_i64(i64::MIN), "-9223372036854775808");
}

#[test]
fn rendered_numbers_read_back() {
    for v in [0, 1, -1, 9, 10, 99, 100, -100, 123456789, i64::MAX, i64::MIN, i64::MAX - 1] {
        assert_eq!(parse_i64(&render_i64(v)), Some(v));
        assert_eq!(render_i64(v), v.to_string());
    }
}

#[test]
fn separators_are_the_white_space_of_unicode() {
    for c in ['\t', '\n', '\u{b}', '\u{c}', '\r', ' ', '\u{85}', '\u{a0}', '\u{1680}', '\u{2000}',
        '\u{2005}', '\u{200a}', '\u{2028}', '\u{2029}', '\u{202f}', '\u{205f}', '\u{3000}']
    {
        assert!(separates(c), "{:?}", c);
    }
    for c in ['a', '0', '-', '\u{0}', '\u{8}', '\u{e}', '\u{1f}', '\u{200b}', '\u{180e}',
        '\u{feff}', '\u{2060}']
    {
        assert!(!separates(c), "{:?}", c);
    }
    let mut code: u32 = 0;
    while code < 0x3100 {
        if let Some(c) = char::from_u32(code) {
            assert_eq!(separates(c), c.is_whitespace(), "{:?}", c);
        }
        code += 1;
    }
}

#[test]
fn chars_of_lists_the_characters() {
    assert_eq!(chars_of(""), Vec::<char>::new());
    assert_eq!(chars_of("a\u{e9}\u{3000}z"), vec!['a', '\u{e9}', '\u{3000}', 'z']);
}

#[test]
fn skipping_finds_the_ends_of_runs() {
    let chars = chars_of("  ab \t cd  ");
    assert_eq!(skip_spaces(&chars, 0), 2);
    assert_eq!(skip_spaces(&chars, 2), 2);
    assert_eq!(skip_word(&chars, 2), 4);
    assert_eq!(skip_word(&chars, 4), 4);
    assert_eq!(skip_spaces(&chars, 4), 7);
    assert_eq!(skip_word(&chars, 7), 9);
    assert_eq!(skip_spaces(&chars, 9), 11);
    assert_eq!(skip_spaces(&chars, 11), 11);
    assert_eq!(skip_word(&chars, 11), 11);
    assert_eq!(skip_spaces_back(&chars, 0), 9);
    assert_eq!(skip_spaces_back(&chars, 7), 9);
    assert_eq!(skip_spaces_back(&chars, 9), 9);
    assert_eq!(skip_spaces_back(&chars, 10), 10);
    assert_eq!(skip_spaces_back(&chars, 11), 11);
}

#[test]
fn word_spans_finds_every_word() {
    assert_eq!(spans_of(""), vec![]);
    assert_eq!(spans_of(" \t "), vec![]);
    assert_eq!(spans_of("one"), vec![(0, 3)]);
    assert_eq!(spans_of("  ab \t cd  "), vec![(2, 4), (7, 9)]);
    assert_eq!(spans_of("a a a"), vec![(0, 1), (2, 3), (4, 5)]);
    assert_eq!(spans_of("\u{e9}t\u{e9}\u{a0}x"), vec![(0, 3), (4, 5)]);
}

#[test]
fn trimmed_drops_separators_at_both_ends() {
    assert_eq!(trimmed(""), "");
    assert_eq!(trimmed(" \t\r\n"), "");
    assert_eq!(trimmed("key"), "key");
    assert_eq!(trimmed("  a key \n"), "a key");
    assert_eq!(trimmed("\u{3000}s\u{e9}same\u{a0}"), "s\u{e9}same");
}

#[test]
fn read_verb_knows_the_seven_commands() {
    let line = "auth init balance delete alter echo exit Auth aut exits";
    let chars = chars_of(line);
    let spans = word_spans(&chars);
    let verbs: Vec<Option<Verb>> = spans.iter().map(|s| read_verb(&chars, *s)).collect();
    assert_eq!(
        verbs,
        vec![
            Some(Verb::Auth),
            Some(Verb::Init),
            Some(Verb::Balance),
            Some(Verb::Delete),
            Some(Verb::Alter),
            Some(Verb::Echo),
            Some(Verb::Exit),
            None,
            None,
            None,
        ]
    );
    assert_eq!(read_verb(&chars, Span { start: 0, end: 3 }), None);
    assert_eq!(read_verb(&chars, Span { start: 5, end: 9 }), Some(Verb::Init));
}
