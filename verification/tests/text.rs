use darwin_vxlan::text::{
    decimal_text, first_whitespace_separated, holds, is_white_space, lines, same_text, split,
    split_once, strip_prefix, trim,
};

const SAMPLES: [&str; 22] = [
    "",
    "a",
    ":",
    "::",
    "a:b",
    "a:b:c",
    ":a",
    "a:",
    "\n",
    "\r\n",
    "\r",
    "a\r",
    "a\nb",
    "a\r\nb\r\n\r\n",
    "a\r\r\nb",
    " \t x y \n",
    "\u{a0}x\u{2003}",
    "\u{e9}:\u{20ac}\n\u{1f600}:z",
    "inet 1.2.3.4 netmask",
    "   ",
    "a\u{2028}b",
    "\u{85}\u{1680}q\u{3000}\u{205f}",
];

#[test]
fn white_space_is_what_unicode_says() {
    for u in 0..=0x10FFFFu32 {
        if let Some(c) = char::from_u32(u) {
            assert_eq!(is_white_space(c), c.is_whitespace(), "{:x}", u);
        }
    }
}

#[test]
fn splitting_agrees_with_std() {
    for s in SAMPLES {
        for c in [':', 'a', '\n', '\u{20ac}'] {
            assert_eq!(split_once(s, c), s.split_once(c));
            assert_eq!(split(s, c), s.split(c).collect::<Vec<&str>>());
        }
    }
}

#[test]
fn lines_agree_with_std() {
    for s in SAMPLES {
        assert_eq!(lines(s), s.lines().collect::<Vec<&str>>(), "{:?}", s);
    }
}

#[test]
fn trimming_agrees_with_std() {
    for s in SAMPLES {
        assert_eq!(trim(s), s.trim());
        assert_eq!(first_whitespace_separated(s), s.split_whitespace().next());
    }
}

#[test]
fn prefixes_agree_with_std() {
    for s in SAMPLES {
        for p in ["", "a", "a:", "inet ", "inet", "\u{e9}", "abcdefghijklmnopqrstuvwxyz"] {
            assert_eq!(strip_prefix(s, p), s.strip_prefix(p));
        }
    }
}

#[test]
fn equality_agrees_with_std() {
    for a in SAMPLES {
        for b in SAMPLES {
            assert_eq!(same_text(a, b), a == b);
        }
    }
}

#[test]
fn lists_hold_what_is_in_them() {
    let list = vec!["bridge0".to_string(), "bridge10".to_string()];
    assert!(holds(&list, "bridge0"));
    assert!(holds(&list, "bridge10"));
    assert!(!holds(&list, "bridge1"));
    assert!(!holds(&list, ""));
    assert!(!holds(&[], ""));
}

#[test]
fn numbers_are_written_in_decimal() {
    for n in [0u32, 1, 9, 10, 11, 99, 100, 101, 4095, 16_777_215, u32::MAX] {
        assert_eq!(decimal_text(n), n.to_string());
    }
}

#[test]
fn cut_texts_rejoin() {
    for s in SAMPLES {
        if let Some((head, tail)) = split_once(s, ':') {
            assert_eq!(format!("{}:{}", head, tail), s);
            assert!(!head.contains(':'));
        } else {
            assert!(!s.contains(':'));
        }
    }
}
