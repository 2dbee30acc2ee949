use jarvis::text::{chars_of, contains, first_lines, lines, lines_containing, same_text, split, starts_with, text_lt, trim};

const SAMPLES: [&str; 14] = [
    "",
    "\n",
    "a",
    "a\n",
    "a\nb",
    "a\r\nb\r\n",
    "a\r",
    "a\rb\n\n",
    "\r\n\r\n",
    "  140.82.112.3 \n",
    "\u{3000}全角\u{a0}",
    "x:y:z",
    "rtt min/avg/max/mdev = 1.1/2.2/3.3/0.4 ms",
    "::",
];

#[test]
fn lines_agree_with_str_lines() {
    for s in SAMPLES {
        let expected: Vec<String> = s.lines().map(String::from).collect();
        assert_eq!(lines(s), expected, "input {:?}", s);
    }
}

#[test]
fn trim_agrees_with_str_trim() {
    for s in SAMPLES {
        assert_eq!(trim(s), s.trim(), "input {:?}", s);
    }
    assert_eq!(trim("\u{2003} a b \u{205f}\u{85}"), "a b");
    assert_eq!(trim("\u{200b}a"), "\u{200b}a");
}

#[test]
fn split_agrees_with_str_split() {
    for s in SAMPLES {
        for sep in [':', '/', '\n'] {
            let expected: Vec<String> = s.split(sep).map(String::from).collect();
            assert_eq!(split(s, sep), expected, "input {:?} sep {:?}", s, sep);
        }
    }
}

#[test]
fn contains_and_starts_with_agree_with_str() {
    let patterns = ["", "a", "rtt", "round-trip", "::", "x:y:z:", "\n"];
    for s in SAMPLES {
        for p in patterns {
            assert_eq!(contains(s, p), s.contains(p), "{:?} in {:?}", p, s);
            assert_eq!(starts_with(s, p), s.starts_with(p), "{:?} prefix of {:?}", p, s);
        }
    }
}

#[test]
fn text_order_agrees_with_string_order() {
    for a in SAMPLES {
        for b in SAMPLES {
            assert_eq!(text_lt(a, b), a < b, "{:?} < {:?}", a, b);
            assert_eq!(same_text(a, b), a == b);
        }
    }
    assert!(text_lt("/etc/hosts.bak.1", "/etc/hosts.bak.2"));
    assert!(text_lt("é", "中"));
}

#[test]
fn chars_of_keeps_every_char() {
    assert_eq!(chars_of("a中\u{3000}"), vec!['a', '中', '\u{3000}']);
}

#[test]
fn first_lines_takes_at_most_n() {
    assert_eq!(first_lines("1\n2\n3\n4\n", 3), vec!["1", "2", "3"]);
    assert_eq!(first_lines("1\n2", 3), vec!["1", "2"]);
    assert!(first_lines("", 3).is_empty());
}

#[test]
fn lines_containing_keeps_order_and_limit() {
    let content = "x github.com\ny\nz github.com\n";
    assert_eq!(lines_containing(content, "github.com", 5), vec!["x github.com", "z github.com"]);
    assert_eq!(lines_containing(content, "github.com", 1), vec!["x github.com"]);
    assert!(lines_containing(content, "gitlab", 5).is_empty());
}
