use pilegit::text::ansi::{strip_ansi, strip_ansi_len};
use pilegit::text::bytes::{can_cut, cut_text, length, longer_than, width_of};
use pilegit::text::chars::{trimmed, white};
use pilegit::text::number::{decimal, to_u32};
use pilegit::text::order::sort;
use pilegit::text::pieces::{joined, lines_of, split_text, splitn_text, words_of};
use pilegit::text::search::{
    dropped_prefixes, dropped_suffixes, find_in, occurs, replaced, rfind_in,
};

const SAMPLES: [&str; 9] = [
    "",
    "plain",
    " \tspaced out\r\n",
    "a\nb\r\nc\n",
    "x\u{85}y\u{2003}z",
    "ünï→code",
    "\n\n",
    "aXbXXc",
    "\u{a0}nbsp\u{3000}",
];

#[test]
fn white_space_is_that_of_the_language() {
    for n in 0..0x11_0000u32 {
        if let Some(c) = char::from_u32(n) {
            assert_eq!(white(c), c.is_whitespace(), "{:x}", n);
        }
    }
}

#[test]
fn widths_are_those_of_utf8() {
    for c in ['a', '\u{7f}', '\u{80}', '\u{7ff}', '\u{800}', '\u{ffff}', '\u{10000}', '中'] {
        assert_eq!(width_of(c), c.len_utf8());
    }
    for s in SAMPLES {
        assert_eq!(length(s), s.len());
        for n in 0..s.len() + 3 {
            assert_eq!(can_cut(s, n), n >= s.len() || s.is_char_boundary(n), "{} {}", s, n);
            assert_eq!(longer_than(s, n), s.len() > n);
            if can_cut(s, n) {
                assert_eq!(cut_text(s, n), &s[..n.min(s.len())]);
            }
        }
    }
}

#[test]
fn texts_fall_into_pieces() {
    for s in SAMPLES {
        assert_eq!(trimmed(s), s.trim());
        assert_eq!(lines_of(s), s.lines().collect::<Vec<_>>());
        assert_eq!(words_of(s), s.split_whitespace().collect::<Vec<_>>());
        for p in ["X", "\n", "X", "aX", "→"] {
            assert_eq!(split_text(s, p), s.split(p).collect::<Vec<_>>());
            assert_eq!(splitn_text(s, 2, p), s.splitn(2, p).collect::<Vec<_>>());
            assert_eq!(occurs(s, p), s.contains(p));
            assert_eq!(replaced(s, p, "--"), s.replace(p, "--"));
            let at = |o: Option<usize>| o.map(|b| s[..b].chars().count());
            assert_eq!(find_in(s, p), at(s.find(p)));
            assert_eq!(rfind_in(s, p), at(s.rfind(p)));
            assert_eq!(dropped_prefixes(s, p), s.trim_start_matches(p));
            assert_eq!(dropped_suffixes(s, p), s.trim_end_matches(p));
        }
    }
    let parts: Vec<String> = vec!["a".to_string(), String::new(), "b".to_string()];
    assert_eq!(joined(&parts, ", "), "a, , b");
}

#[test]
fn numbers_are_written_and_read() {
    for n in [0u64, 7, 10, 4294967295, 4294967296, u64::MAX] {
        assert_eq!(decimal(n), n.to_string());
    }
    for s in ["", "+", "-", "0", "+7", "-7", "007", "4294967295", "4294967296", "1 ", "x", "٣"] {
        assert_eq!(to_u32(s), s.parse::<u32>().ok(), "{}", s);
    }
}

#[test]
fn names_are_sorted_as_strings_are() {
    let mut names: Vec<String> =
        ["b", "a", "", "B", "ab", "ü", "中", "\u{10000}", "\u{ffff}", "a"]
            .iter()
            .map(|s| s.to_string())
            .collect();
    let sorted = sort(names.clone());
    names.sort();
    assert_eq!(sorted, names);
}

#[test]
fn escape_codes_take_no_room() {
    assert_eq!(strip_ansi("\x1b[1;33mhi\x1b[0m there"), "hi there");
    assert_eq!(strip_ansi_len("\x1b[1;33mhi\x1b[0m→"), 3);
    assert_eq!(strip_ansi_len("plain"), 5);
    for s in ["\x1b[1;33mhi\x1b[0m there", "a\x1b", "\x1bm\x1b[mé", "m[0m"] {
        let once = strip_ansi(s);
        assert!(!once.contains('\x1b'));
        assert_eq!(strip_ansi(&once), once);
        assert_eq!(strip_ansi_len(s), once.chars().count());
    }
}
