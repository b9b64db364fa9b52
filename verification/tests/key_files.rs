use wayland_vdagent::keyfile::parse_start_keyfile;
use wayland_vdagent::text::{
    after_prefix, chars_of, index_of, is_text, parse_number, push_decimal, string_of, trimmed,
};

fn parsed(text: &str) -> Option<(String, u64)> {
    parse_start_keyfile(text.as_bytes())
}

fn some(name: &str, size: u64) -> Option<(String, u64)> {
    Some((name.to_string(), size))
}

#[test]
fn plain_key_file() {
    assert_eq!(
        parsed("[vdagent-file-xfer]\nname=document.pdf\nsize=12345\n"),
        some("document.pdf", 12345)
    );
}

#[test]
fn bytes_from_the_first_nul_on_do_not_count() {
    assert_eq!(
        parse_start_keyfile(b"[vdagent-file-xfer]\nname=a\nsize=1\n\0size=2\n\xff"),
        some("a", 1)
    );
    assert_eq!(parse_start_keyfile(b"[vdagent-file-xfer]\nname=a\n\0size=1\n"), None);
}

#[test]
fn bytes_that_are_no_text_are_refused() {
    assert_eq!(parse_start_keyfile(b"[vdagent-file-xfer]\nname=\xff\nsize=1\n"), None);
    assert_eq!(parse_start_keyfile(b""), None);
}

#[test]
fn names_beyond_ascii() {
    assert_eq!(
        parsed("[vdagent-file-xfer]\nname=Übersicht 日本.txt\nsize=3\n"),
        some("Übersicht 日本.txt", 3)
    );
}

#[test]
fn blanks_comments_and_line_ends() {
    let text = "  \r\n# name=no\r\n  [vdagent-file-xfer]  \r\n\t name =  a b.txt \r\nsize= 7\r\n";
    assert_eq!(parsed(text), some("a b.txt", 7));
    assert_eq!(parsed("[vdagent-file-xfer]\nname\u{a0}=\u{3000}x\u{2003}\nsize=7"), some("x", 7));
}

#[test]
fn other_sections_are_ignored() {
    let text = "name=x\nsize=9\n[other]\nname=y\nsize=8\n[vdagent-file-xfer]\nname=a\nsize=1\n[more]\nname=z\n";
    assert_eq!(parsed(text), some("a", 1));
    assert_eq!(parsed("[other]\nname=y\nsize=8\n"), None);
}

#[test]
fn a_section_may_come_twice() {
    let text = "[vdagent-file-xfer]\nname=a\n[x]\nsize=2\n[vdagent-file-xfer]\nsize=3\n";
    assert_eq!(parsed(text), some("a", 3));
}

#[test]
fn the_last_entry_counts() {
    let text = "[vdagent-file-xfer]\nname=a\nname=b\nsize=1\nsize=2\n";
    assert_eq!(parsed(text), some("b", 2));
    assert_eq!(parsed("[vdagent-file-xfer]\nname=a\nsize=1\nsize=x\n"), None);
}

#[test]
fn both_entries_are_needed() {
    assert_eq!(parsed("[vdagent-file-xfer]\nname=a\n"), None);
    assert_eq!(parsed("[vdagent-file-xfer]\nsize=1\n"), None);
    assert_eq!(parsed("[vdagent-file-xfer]\nname=\nsize=0\n"), some("", 0));
}

#[test]
fn values_may_hold_equal_signs() {
    assert_eq!(parsed("[vdagent-file-xfer]\nname=a=b\nsize=1\n"), some("a=b", 1));
    assert_eq!(parsed("[vdagent-file-xfer]\nname a\nname=b\nsize=1\n"), some("b", 1));
}

#[test]
fn sizes_like_the_standard_parser() {
    for text in [
        "0", "00", "+5", "-5", "", "+", "18446744073709551615", "18446744073709551616", "1 2",
        "0x10", "99999999999999999999999", "٣", "000000000000000000000000000001", "+-1", "++1",
    ] {
        let chars = chars_of(text);
        assert_eq!(parse_number(&chars), text.parse::<u64>().ok(), "{}", text);
        let file = format!("[vdagent-file-xfer]\nname=a\nsize={}\n", text);
        let expected = text.parse::<u64>().ok().map(|n| ("a".to_string(), n));
        assert_eq!(parsed(&file), expected, "{}", text);
    }
}

#[test]
fn key_files_read_back() {
    for name in ["a", "x y", "=", "#1", "[vdagent-file-xfer]", "日"] {
        for size in [0, 10, u64::MAX] {
            let file = format!("[vdagent-file-xfer]\nname={}\nsize={}\n", name, size);
            assert_eq!(parsed(&file), some(name, size));
        }
    }
}

#[test]
fn decimals_read_back() {
    for n in [0, 9, 10, 4294967295] {
        let mut out = Vec::new();
        push_decimal(&mut out, n);
        assert_eq!(string_of(&out), n.to_string());
        assert_eq!(parse_number(&out), Some(n as u64));
    }
}

#[test]
fn text_helpers() {
    let chars = chars_of(" \u{85}a=ü \n");
    assert_eq!(string_of(trimmed(&chars)), "a=ü");
    assert_eq!(trimmed(&chars_of(" \t")).len(), 0);
    assert_eq!(index_of(&chars, 0, '='), 3);
    assert_eq!(index_of(&chars, 4, '='), chars.len());
    assert!(is_text(&chars_of("näme"), "näme"));
    assert!(!is_text(&chars_of("name"), "nam"));
    assert!(!is_text(&chars_of("name"), "nama"));
    assert_eq!(after_prefix(&chars_of("key=v"), "key="), Some(&['v'][..]));
    assert_eq!(after_prefix(&chars_of("ke"), "key="), None);
    assert_eq!(after_prefix(&chars_of("kex=v"), "key="), None);
}

#[test]
fn blanks_like_the_standard_library() {
    for u in 0..0x1_1000u32 {
        if let Some(c) = char::from_u32(u) {
            let is_blank = trimmed(&[c]).is_empty();
            assert_eq!(is_blank, c.is_whitespace(), "{:x}", u);
        }
    }
}
