use chat_relay::console::{
    console_step, is_quit_sentinel, trim, white_space, ConsoleEvent, ConsoleStep,
};

fn line(text: &str) -> ConsoleEvent {
    ConsoleEvent::Line(text.to_string())
}

fn sent(text: &str) -> ConsoleStep {
    ConsoleStep::Enqueue(text.to_string())
}

#[test]
fn white_space_agrees_with_std_on_every_char() {
    let mut count = 0;
    for code in 0..=0x10FFFFu32 {
        if let Some(c) = char::from_u32(code) {
            assert_eq!(white_space(c), c.is_whitespace(), "U+{:04X}", code);
            if white_space(c) {
                count += 1;
            }
        }
    }
    assert_eq!(count, 25);
}

#[test]
fn white_space_named_characters() {
    for c in [' ', '\t', '\n', '\r', '\u{0B}', '\u{0C}', '\u{85}', '\u{A0}', '\u{3000}'] {
        assert!(white_space(c), "{:?}", c);
    }
    for c in ['a', ':', '0', '\0', '\u{08}', '\u{0E}', '\u{200B}', '\u{180E}', '\u{FEFF}'] {
        assert!(!white_space(c), "{:?}", c);
    }
}

#[test]
fn trim_agrees_with_std() {
    let samples = [
        "",
        " ",
        "\n",
        "   \t\r\n",
        "hello",
        "hello\n",
        "hello\r\n",
        "  hello world  ",
        "\thello\tworld\t",
        "a b",
        " a",
        "a ",
        "\u{A0}non-breaking\u{A0}",
        "\u{3000}wide\u{2003}",
        "\u{200B}zero width stays\u{200B}",
        "  héllo wörld \u{2028}",
        "🦀  ",
        " \u{85} x \u{1680} ",
    ];
    for sample in samples {
        assert_eq!(trim(sample), sample.trim(), "{:?}", sample);
    }
}

#[test]
fn trim_is_not_the_identity() {
    assert_eq!(trim("  padded\n"), "padded");
    assert_ne!(trim("  padded\n"), "  padded\n");
    assert_eq!(trim(" \t "), "");
}

#[test]
fn trim_keeps_inner_white_space() {
    assert_eq!(trim("  two  words  "), "two  words");
}

#[test]
fn quit_sentinel_in_every_letter_case() {
    let mut seen = 0;
    for q in ['q', 'Q'] {
        for u in ['u', 'U'] {
            for i in ['i', 'I'] {
                for t in ['t', 'T'] {
                    let word: String = [':', q, u, i, t].iter().collect();
                    assert!(is_quit_sentinel(&word), "{:?}", word);
                    assert_eq!(console_step(line(&word)), ConsoleStep::Exit);
                    seen += 1;
                }
            }
        }
    }
    assert_eq!(seen, 16);
}

#[test]
fn quit_sentinel_named_forms() {
    assert!(is_quit_sentinel(":quit"));
    assert!(is_quit_sentinel(":QUIT"));
    assert!(is_quit_sentinel(":QuIt"));
    assert!(is_quit_sentinel(":qUIT"));
}

#[test]
fn quit_sentinel_rejects_other_text() {
    for text in [
        "", ":", "quit", ":qui", ":quit!", ":quits", "::quit", ":q", ":exit", ";quit", ": quit",
        ":quit ", " :quit", ":qu1t", "hello", ":QUIT:QUIT",
    ] {
        assert!(!is_quit_sentinel(text), "{:?}", text);
    }
}

#[test]
fn quit_sentinel_agrees_with_lowercase_comparison() {
    let samples = [
        ":quit", ":QUIT", ":Quit", ":quiT", "quit", ":quit ", ":qu\u{130}t", ":qu\u{131}t",
        ":\u{FF51}uit", ":qu\u{0456}t", ":quit\u{307}", "\u{FF1A}quit", ":QU\u{130}T", "", ":",
        ":q\u{16E}it", ":qui\u{1E6A}",
    ];
    for text in samples {
        assert_eq!(is_quit_sentinel(text), text.to_lowercase() == ":quit", "{:?}", text);
    }
}

#[test]
fn only_ascii_letters_lowercase_to_sentinel_letters() {
    for code in 0..=0x10FFFFu32 {
        if let Some(c) = char::from_u32(code) {
            let lower: String = c.to_lowercase().collect();
            let expected = match lower.as_str() {
                ":" => Some(vec![':']),
                "q" => Some(vec!['q', 'Q']),
                "u" => Some(vec!['u', 'U']),
                "i" => Some(vec!['i', 'I']),
                "t" => Some(vec!['t', 'T']),
                _ => None,
            };
            if let Some(sources) = expected {
                assert!(sources.contains(&c), "U+{:04X} lowercases to {:?}", code, lower);
            }
        }
    }
}

#[test]
fn console_quit_with_newline_exits() {
    assert_eq!(console_step(line(":quit\n")), ConsoleStep::Exit);
    assert_eq!(console_step(line(":QUIT\r\n")), ConsoleStep::Exit);
    assert_eq!(console_step(line("  :Quit  \n")), ConsoleStep::Exit);
}

#[test]
fn console_line_is_sent_trimmed() {
    assert_eq!(console_step(line("hello\n")), sent("hello"));
    assert_eq!(console_step(line("  hello world \r\n")), sent("hello world"));
    assert_eq!(console_step(line("héllo\n")), sent("héllo"));
}

#[test]
fn console_near_sentinels_are_sent() {
    assert_eq!(console_step(line("quit\n")), sent("quit"));
    assert_eq!(console_step(line(":quit now\n")), sent(":quit now"));
    assert_eq!(console_step(line(": quit\n")), sent(": quit"));
    assert_eq!(console_step(line(":q\n")), sent(":q"));
}

#[test]
fn console_empty_line_sends_empty_message() {
    assert_eq!(console_step(line("\n")), sent(""));
    assert_eq!(console_step(line("")), sent(""));
    assert_eq!(console_step(line("   \n")), sent(""));
}

#[test]
fn console_goes_on_while_queue_accepts() {
    assert_eq!(console_step(ConsoleEvent::Enqueued { accepted: true }), ConsoleStep::ReadLine);
}

#[test]
fn console_exits_when_queue_is_gone() {
    assert_eq!(console_step(ConsoleEvent::Enqueued { accepted: false }), ConsoleStep::Exit);
}
