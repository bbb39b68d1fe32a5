use bidi_detector::{check_for_bidi_chars, get_char_detail, BIDICharOccurence};

fn example_js() -> String {
    let mut s = String::new();
    s.push_str("#!/usr/bin/env node\n");
    s.push_str("\n");
    s.push_str("var isAdmin = false;\n");
    s.push_str("/*\u{202E} } \u{2066}if (isAdmin)\u{2069} \u{2066} begin admins only */\n");
    s.push_str("    console.log(\"You are an admin.\");\n");
    s.push_str("/* end admins only \u{202E} { \u{2066}*/\n");
    s.push_str("\n");
    s
}

#[test]
fn lib_check_example_js() {
    let check_result = check_for_bidi_chars(&example_js());
    assert_eq!(check_result.occurences.len(), 6);
    assert_eq!(
        check_result.occurences.get(0).unwrap(),
        &BIDICharOccurence {
            char_pos: 3,
            line: 4,
            found_char: '\u{202e}'
        }
    )
}

#[test]
fn empty_text_has_no_occurrences() {
    let r = check_for_bidi_chars("");
    assert!(!r.contains_bidi_chars);
    assert!(r.occurences.is_empty());
}

#[test]
fn clean_text_has_no_occurrences() {
    let r = check_for_bidi_chars("fn main() {\n    println!(\"héllo wörld — ✓\");\n}\n");
    assert!(!r.contains_bidi_chars);
    assert!(r.occurences.is_empty());
}

#[test]
fn inserted_character_is_reported_at_its_place() {
    let text = "first line\nsecond\u{2067} line\n\nfourth";
    let r = check_for_bidi_chars(text);
    assert!(r.contains_bidi_chars);
    assert_eq!(
        r.occurences,
        vec![BIDICharOccurence { line: 2, char_pos: 7, found_char: '\u{2067}' }]
    );
}

#[test]
fn columns_count_characters_not_bytes() {
    // Each of the first three characters takes several bytes in UTF-8.
    let text = "é日🙂\u{202D}x";
    let r = check_for_bidi_chars(text);
    assert_eq!(
        r.occurences,
        vec![BIDICharOccurence { line: 1, char_pos: 4, found_char: '\u{202D}' }]
    );
}

#[test]
fn lines_advance_once_per_line_feed() {
    let text = "\u{202A}\n\n\u{202B}\r\nab\u{202C}\n";
    let r = check_for_bidi_chars(text);
    assert_eq!(
        r.occurences,
        vec![
            BIDICharOccurence { line: 1, char_pos: 1, found_char: '\u{202A}' },
            BIDICharOccurence { line: 3, char_pos: 1, found_char: '\u{202B}' },
            BIDICharOccurence { line: 4, char_pos: 3, found_char: '\u{202C}' },
        ]
    );
}

#[test]
fn end_to_end_right_to_left_override() {
    let text = "a\nb\nc\nx = 1\u{202E}// backdoor\n";
    let r = check_for_bidi_chars(text);
    assert_eq!(
        r.occurences,
        vec![BIDICharOccurence { line: 4, char_pos: 6, found_char: '\u{202E}' }]
    );
    let text2 = "a\nb\nc\n\"x\u{202E}\"// backdoor";
    let r2 = check_for_bidi_chars(text2);
    assert_eq!(
        r2.occurences,
        vec![BIDICharOccurence { line: 4, char_pos: 3, found_char: '\u{202E}' }]
    );
    assert_eq!(get_char_detail(&'\u{202E}').unwrap().abbreviation, "RLO");
}

#[test]
fn scanning_twice_gives_the_same_result() {
    let text = "x\u{2068}y\nz\u{2069}";
    let a = check_for_bidi_chars(text);
    let b = check_for_bidi_chars(text);
    assert_eq!(a.contains_bidi_chars, b.contains_bidi_chars);
    assert_eq!(a.occurences, b.occurences);
    assert_eq!(a.occurences.len(), 2);
}

#[test]
fn every_control_character_is_found() {
    let controls = [
        '\u{202A}', '\u{202B}', '\u{202D}', '\u{202E}', '\u{2066}', '\u{2067}', '\u{2068}',
        '\u{202C}', '\u{2069}',
    ];
    let text: String = controls.iter().collect();
    let r = check_for_bidi_chars(&text);
    assert_eq!(r.occurences.len(), 9);
    for (k, c) in controls.iter().enumerate() {
        assert_eq!(r.occurences[k], BIDICharOccurence { line: 1, char_pos: k + 1, found_char: *c });
    }
}
