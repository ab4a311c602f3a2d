use rust_mailer_api::address::{is_valid_email, ADDRESS_PATTERN};

/// The shape of an accepted address, written out by hand.
fn has_address_shape(text: &str) -> bool {
    let chars: Vec<char> = text.chars().collect();
    let ats: Vec<usize> = (0..chars.len()).filter(|&i| chars[i] == '@').collect();
    if ats.len() != 1 || chars.iter().any(|c| c.is_whitespace()) {
        return false;
    }
    let at = ats[0];
    at > 0 && (at + 2..chars.len().saturating_sub(1)).any(|dot| chars[dot] == '.')
}

fn all_texts(alphabet: &[char], max_len: usize) -> Vec<String> {
    let mut all = vec![String::new()];
    let mut last = vec![String::new()];
    for _ in 0..max_len {
        let mut next = Vec::new();
        for text in &last {
            for c in alphabet {
                let mut longer = text.clone();
                longer.push(*c);
                next.push(longer);
            }
        }
        all.extend(next.iter().cloned());
        last = next;
    }
    all
}

#[test]
fn accepts_plain_addresses() {
    assert!(is_valid_email("ok@example.com"));
    assert!(is_valid_email("a@b.c"));
    assert!(is_valid_email("first.last+tag@mail.example.org"));
    assert!(is_valid_email("üser@exämple.de"));
}

#[test]
fn rejects_empty_text() {
    assert!(!is_valid_email(""));
}

#[test]
fn rejects_text_without_at() {
    assert!(!is_valid_email("not-an-email"));
    assert!(!is_valid_email("example.com"));
}

#[test]
fn rejects_more_than_one_at() {
    assert!(!is_valid_email("a@b@c.d"));
    assert!(!is_valid_email("a@@b.c"));
    assert!(!is_valid_email("a@b.c@"));
}

#[test]
fn rejects_whitespace_anywhere() {
    assert!(!is_valid_email(" a@b.c"));
    assert!(!is_valid_email("a@b.c "));
    assert!(!is_valid_email("a b@c.d"));
    assert!(!is_valid_email("a@b .c"));
    assert!(!is_valid_email("a@b.c\n"));
    assert!(!is_valid_email("a\t@b.c"));
}

#[test]
fn rejects_every_kind_of_whitespace() {
    let spaces = [
        '\u{9}', '\u{a}', '\u{b}', '\u{c}', '\u{d}', '\u{20}', '\u{85}', '\u{a0}', '\u{1680}',
        '\u{2000}', '\u{2005}', '\u{200a}', '\u{2028}', '\u{2029}', '\u{202f}', '\u{205f}',
        '\u{3000}',
    ];
    for space in spaces {
        assert!(!is_valid_email(&format!("a{}b@c.d", space)), "U+{:04X}", space as u32);
        assert!(!is_valid_email(&format!("ab@c{}.d", space)), "U+{:04X}", space as u32);
    }
}

#[test]
fn accepts_characters_next_to_the_whitespace_ranges() {
    let others = [
        '\u{8}', '\u{e}', '\u{1f}', '\u{21}', '\u{84}', '\u{86}', '\u{9f}', '\u{a1}', '\u{167f}',
        '\u{1681}', '\u{1fff}', '\u{200b}', '\u{2027}', '\u{202a}', '\u{202e}', '\u{2030}',
        '\u{205e}', '\u{2060}', '\u{2fff}', '\u{3001}',
    ];
    for other in others {
        assert!(is_valid_email(&format!("a{}b@c.d", other)), "U+{:04X}", other as u32);
    }
}

#[test]
fn rejects_missing_local_part() {
    assert!(!is_valid_email("@b.c"));
}

#[test]
fn rejects_domain_without_inner_dot() {
    assert!(!is_valid_email("a@b"));
    assert!(!is_valid_email("a@bc"));
    assert!(!is_valid_email("a@.c"));
    assert!(!is_valid_email("a@b."));
    assert!(!is_valid_email("a@."));
    assert!(!is_valid_email("a.b@c"));
}

#[test]
fn accepts_any_dot_with_a_neighbour_on_each_side() {
    assert!(is_valid_email("a@..b"));
    assert!(is_valid_email("a@b.."));
    assert!(is_valid_email("a@..."));
    assert!(is_valid_email(".@b.c"));
}

#[test]
fn agrees_with_the_shape_on_all_short_texts() {
    for text in all_texts(&['a', '@', '.', ' '], 6) {
        assert_eq!(is_valid_email(&text), has_address_shape(&text), "{:?}", text);
    }
}

#[test]
fn pattern_is_the_one_that_is_matched() {
    assert_eq!(ADDRESS_PATTERN, "^[^\\s@]+@[^\\s@]+\\.[^\\s@]+$");
    let pattern = regex::Regex::new(ADDRESS_PATTERN).unwrap();
    for text in ["ok@example.com", "not-an-email", "a@b.c\n", "a@b", ""] {
        assert_eq!(is_valid_email(text), pattern.is_match(text), "{:?}", text);
    }
}
