use flipper_monitor::text::{
    contains, find, parse_u64, second_field, split_lines, split_whitespace, to_chars, trim,
    trim_end_matches, trim_matches, trim_start_matches, CharSet,
};

fn chars(s: &str) -> Vec<char> {
    s.chars().collect()
}

fn text(cs: &[char]) -> String {
    cs.iter().collect()
}

const SAMPLES: [&str; 24] = [
    "",
    " ",
    "a",
    "abc",
    "  abc  ",
    "\t\r\n abc def \u{a0}\u{3000}",
    "a=b",
    "a=b=c",
    "=",
    "==",
    "a=",
    "=a",
    "\"1536\",",
    ",\"\",",
    "foo\nbar",
    "foo\nbar\n",
    "foo\r\nbar\r\n",
    "foo\nbar\n\r\nbaz\r",
    "\n",
    "\n\n",
    "\r",
    "\r\n",
    "x\u{2028}y\u{85}z",
    "12%%",
];

#[test]
fn to_chars_gives_the_scalar_values() {
    for s in SAMPLES {
        assert_eq!(to_chars(s), chars(s));
    }
    assert_eq!(to_chars("é€😀"), vec!['é', '€', '😀']);
}

#[test]
fn whitespace_set_is_the_unicode_property() {
    let set = CharSet::Whitespace;
    let mut u: u32 = 0;
    while u <= 0x10FFFF {
        if let Some(c) = char::from_u32(u) {
            assert_eq!(set.contains(c), c.is_whitespace(), "U+{:04X}", u);
        }
        u += 1;
    }
}

#[test]
fn small_sets_hold_their_members_only() {
    assert!(CharSet::Just('%').contains('%'));
    assert!(!CharSet::Just('%').contains('5'));
    assert!(CharSet::Either('"', ',').contains('"'));
    assert!(CharSet::Either('"', ',').contains(','));
    assert!(!CharSet::Either('"', ',').contains(' '));
}

#[test]
fn find_gives_the_first_occurrence_or_the_length() {
    let t = chars("a=b=c");
    assert_eq!(find(&t, '=', 0), 1);
    assert_eq!(find(&t, '=', 1), 1);
    assert_eq!(find(&t, '=', 2), 3);
    assert_eq!(find(&t, '=', 4), 5);
    assert_eq!(find(&t, '=', 5), 5);
    assert_eq!(find(&t, '=', 99), 5);
    assert_eq!(find(&t, 'z', 0), 5);
    assert_eq!(find(&[], 'z', 0), 0);
}

#[test]
fn contains_agrees_with_str_contains() {
    let pats = ["", "a", "b", "abc", "bc", "VRAM", "=", "\n", "  ", "ab", "c  "];
    for s in SAMPLES {
        for p in pats {
            assert_eq!(contains(&chars(s), &chars(p)), s.contains(p), "{:?} {:?}", s, p);
        }
    }
    assert!(contains(&chars("xxVRAMxx"), &chars("VRAM")));
    assert!(!contains(&chars("xxVRAxMx"), &chars("VRAM")));
    assert!(!contains(&chars("VRA"), &chars("VRAM")));
}

#[test]
fn second_field_agrees_with_split_nth() {
    for s in SAMPLES {
        for sep in ['=', ':', 'b'] {
            let got = second_field(&chars(s), sep).map(text);
            let want = s.split(sep).nth(1).map(|x| x.to_string());
            assert_eq!(got, want, "{:?} {:?}", s, sep);
        }
    }
    assert_eq!(second_field(&chars("k = 12 = 3"), '=').map(text), Some(" 12 ".to_string()));
    assert_eq!(second_field(&chars("no separator"), '=').map(text), None);
}

#[test]
fn trims_agree_with_str_trims() {
    for s in SAMPLES {
        let cs = chars(s);
        assert_eq!(text(trim(&cs)), s.trim(), "{:?}", s);
        assert_eq!(
            text(trim_matches(&cs, &CharSet::Either('"', ','))),
            s.trim_matches(|c| c == '"' || c == ','),
            "{:?}",
            s
        );
        assert_eq!(text(trim_end_matches(&cs, &CharSet::Just('%'))), s.trim_end_matches('%'));
        assert_eq!(text(trim_start_matches(&cs, &CharSet::Whitespace)), s.trim_start());
        assert_eq!(text(trim_end_matches(&cs, &CharSet::Whitespace)), s.trim_end());
        assert_eq!(text(trim_matches(&cs, &CharSet::Just('='))), s.trim_matches('='));
    }
    assert_eq!(text(trim(&chars("   "))), "");
    assert_eq!(text(trim_matches(&chars("\"\","), &CharSet::Either('"', ','))), "");
}

#[test]
fn split_lines_agrees_with_str_lines() {
    for s in SAMPLES {
        let cs = chars(s);
        let got: Vec<String> = split_lines(&cs).into_iter().map(text).collect();
        let want: Vec<String> = s.lines().map(|x| x.to_string()).collect();
        assert_eq!(got, want, "{:?}", s);
    }
    let cs = chars("foo\nbar\n\r\nbaz\r");
    let got: Vec<String> = split_lines(&cs).into_iter().map(text).collect();
    assert_eq!(got, vec!["foo", "bar", "", "baz\r"]);
}

#[test]
fn split_whitespace_agrees_with_str_split_whitespace() {
    for s in SAMPLES {
        let cs = chars(s);
        let got: Vec<String> = split_whitespace(&cs).into_iter().map(text).collect();
        let want: Vec<String> = s.split_whitespace().map(|x| x.to_string()).collect();
        assert_eq!(got, want, "{:?}", s);
    }
    let cs = chars("  VRAM (Total):   8 GB ");
    let got: Vec<String> = split_whitespace(&cs).into_iter().map(text).collect();
    assert_eq!(got, vec!["VRAM", "(Total):", "8", "GB"]);
}

#[test]
fn parse_u64_agrees_with_str_parse() {
    let inputs = [
        "",
        "+",
        "-",
        "0",
        "+0",
        "-0",
        "007",
        "+42",
        "++42",
        "4 2",
        " 42",
        "42 ",
        "4_2",
        "0x10",
        "1536",
        "8192",
        "18446744073709551615",
        "18446744073709551616",
        "18446744073709551625",
        "99999999999999999999999999",
        "000000000000000000000000000000001",
        "١٢٣",
        "12a",
        "a12",
        "1.5",
    ];
    for s in inputs {
        assert_eq!(parse_u64(&chars(s)), s.parse::<u64>().ok(), "{:?}", s);
    }
    assert_eq!(parse_u64(&chars("18446744073709551615")), Some(u64::MAX));
    assert_eq!(parse_u64(&chars("18446744073709551616")), None);
}
