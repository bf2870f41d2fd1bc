use std::path::Path;

use plugdeck::decimal::{format_number, integer_text, parse_integer, parse_natural};
use plugdeck::formats::{format_duration, truncate_text, usage_window_duration};
use plugdeck::html::{html_escape, paragraph_html};
use plugdeck::paths::{
    expand_local_path, extension, file_name, is_absolute, join, project_display_name,
    resolve_agent_path, sanitize_filename, starts_with,
};
use plugdeck::text::{self, CharSet};

#[test]
fn white_space_is_that_of_unicode() {
    for n in 0..=0x10ffffu32 {
        if let Some(c) = char::from_u32(n) {
            assert_eq!(text::space(c), c.is_whitespace());
        }
    }
}

#[test]
fn character_sets_are_those_of_ascii() {
    for n in 0..0x3000u32 {
        if let Some(c) = char::from_u32(n) {
            let alnum = c.is_ascii_alphanumeric();
            assert_eq!(CharSet::SlotName.holds(c), alnum || c == '-' || c == '_');
            assert_eq!(
                CharSet::FileName.holds(c),
                alnum || c == '.' || c == '-' || c == '_'
            );
            assert_eq!(CharSet::Unquoted.holds(c), c.is_ascii() && c != '"');
            assert_eq!(
                CharSet::Printable.holds(c),
                c.is_ascii() && !c.is_ascii_control() && c != '"'
            );
            assert_eq!(CharSet::DigitDot.holds(c), c.is_ascii_digit() || c == '.');
            assert_eq!(text::low(c), c.to_ascii_lowercase());
        }
    }
}

#[test]
fn texts_are_searched_and_split_as_usual() {
    let samples = [
        "", " ", "a", " a b ", "\u{a0}x\u{2003}", "a,b,,c", "::", "a:b:c", "é=ü=", "x\r\ny\n\nz",
        "x\n", "\n", "\r\n\r", "aaa", "abab", "  two  words\t",
    ];
    for s in samples {
        assert_eq!(text::trim(s), s.trim());
        assert_eq!(
            text::trim_of(s, CharSet::Only('a')),
            s.trim_matches('a')
        );
        assert_eq!(text::split(s, ','), s.split(',').collect::<Vec<_>>());
        assert_eq!(text::split_once(s, ':'), s.split_once(':'));
        assert_eq!(
            text::split_words(s),
            s.split_whitespace().collect::<Vec<_>>()
        );
        assert_eq!(text::lines(s), s.lines().collect::<Vec<_>>());
        assert_eq!(text::last_part(s, ','), s.rsplit(',').next().unwrap());
        assert_eq!(text::replace(s, 'a', "&&"), s.replace('a', "&&"));
        assert_eq!(text::count_text(s, "a"), s.matches("a").count());
        assert_eq!(text::lower(s), s.to_ascii_lowercase());
        for p in samples {
            assert_eq!(text::contains(s, p), s.contains(p));
            assert_eq!(text::starts_with(s, p), s.starts_with(p));
            assert_eq!(text::ends_with(s, p), s.ends_with(p));
            assert_eq!(text::strip_prefix(s, p), s.strip_prefix(p));
            assert_eq!(text::before(s, p), s < p);
        }
    }
    assert_eq!(text::count_text("aaaa", "aa"), 2);
    assert_eq!(text::find("xaba", "ba"), Some(2));
    assert_eq!(text::first_chars("héllo", 2), "hé");
    assert_eq!(
        text::join(&vec!["a".to_string(), "b".to_string()], ", "),
        "a, b"
    );
}

#[test]
fn numerals_are_read_and_written_as_usual() {
    for s in [
        "", "-", "+", "0", "-0", "+7", "007", "12x", " 1", "9223372036854775807",
        "9223372036854775808", "-9223372036854775808", "-9223372036854775809", "٣",
        "99999999999999999999999",
    ] {
        assert_eq!(parse_integer(s), s.parse::<i64>().ok());
        assert_eq!(parse_natural(s, u64::MAX), s.parse::<u64>().ok());
    }
    assert_eq!(parse_natural("255", 255), Some(255));
    assert_eq!(parse_natural("256", 255), None);
    for v in [0, 7, -7, 1234, i64::MAX, i64::MIN] {
        assert_eq!(integer_text(v), v.to_string());
        assert_eq!(parse_integer(&integer_text(v)), Some(v));
    }
}

#[test]
fn thousands_are_set_apart() {
    assert_eq!(format_number(0), "0");
    assert_eq!(format_number(999), "999");
    assert_eq!(format_number(1000), "1,000");
    assert_eq!(format_number(-1234567), "-1,234,567");
    assert_eq!(format_number(i64::MAX), "9,223,372,036,854,775,807");
    assert_eq!(format_number(619644).replace(',', ""), "619644");
}

#[test]
fn durations_are_told_in_one_unit() {
    assert_eq!(format_duration(-5, "in "), "in 0m");
    assert_eq!(format_duration(59, ""), "0m");
    assert_eq!(format_duration(3599, ""), "59m");
    assert_eq!(format_duration(3600, ""), "1h");
    assert_eq!(format_duration(48 * 3600 - 1, ""), "47h");
    assert_eq!(format_duration(48 * 3600, "in "), "in 2d");
    assert_eq!(usage_window_duration(300), "5h");
    assert_eq!(usage_window_duration(10080), "7d");
    assert_eq!(usage_window_duration(90), "90m");
    assert_eq!(usage_window_duration(0), "0m");
    assert_eq!(usage_window_duration(-60), "-60m");
}

#[test]
fn long_texts_are_cut_with_a_note() {
    assert_eq!(truncate_text("  short ", 5), "short");
    let long = "x".repeat(100);
    assert_eq!(
        truncate_text(&long, 56),
        format!("{}\n...[truncated]", "x".repeat(36))
    );
    assert!(truncate_text(&long, 56).chars().count() <= 56);
    assert_eq!(truncate_text(&long, 10), "\n...[truncated]");
    assert_eq!(truncate_text(&"é".repeat(56), 56), "é".repeat(56));
}

#[test]
fn escaped_text_holds_no_markup() {
    assert_eq!(
        html_escape("<a href=\"x\">&amp;'</a>"),
        "&lt;a href=&quot;x&quot;&gt;&amp;amp;'&lt;/a&gt;"
    );
    for s in ["", "plain", "<>\"&", "&lt;", "a & b < c"] {
        let escaped = html_escape(s);
        assert!(!escaped.contains(['<', '>', '"']));
        let back = escaped
            .replace("&quot;", "\"")
            .replace("&gt;", ">")
            .replace("&lt;", "<")
            .replace("&amp;", "&");
        assert_eq!(back, s);
    }
    assert_eq!(paragraph_html(" \n "), "");
    assert_eq!(paragraph_html("a<\nb"), "<p>a&lt;<br>b</p>");
}

#[test]
fn paths_are_those_of_the_standard_library() {
    let samples = [
        "", "/", "a", "/a", "a/", "a/b", "/a/b/", "a//b", "./a", "a/.", "a/./b", "..", "a/..",
        "/a/../b", ".", "a.txt", ".hidden", "x/.env", "x/a.tar.gz", "a.", "..b", "...", "a/b.jsonl",
        "./", "//", "/.", "./.",
    ];
    for s in samples {
        let path = Path::new(s);
        assert_eq!(is_absolute(s), path.is_absolute(), "{s}");
        assert_eq!(
            file_name(s).as_deref(),
            path.file_name().and_then(|name| name.to_str()),
            "{s}"
        );
        assert_eq!(
            extension(s).as_deref(),
            path.extension().and_then(|ext| ext.to_str()),
            "{s}"
        );
        for t in samples {
            assert_eq!(
                join(s, t),
                path.join(t).to_str().unwrap(),
                "{s} and {t}"
            );
            assert_eq!(
                starts_with(s, t),
                path.starts_with(Path::new(t)),
                "{s} within {t}"
            );
        }
    }
}

#[test]
fn paths_of_users_are_expanded() {
    assert_eq!(expand_local_path(" ~ ", "/home/u"), "/home/u");
    assert_eq!(expand_local_path("~/x", "/home/u"), "/home/u/x");
    assert_eq!(expand_local_path("$HOME/x", "/home/u"), "/home/u/x");
    assert_eq!(expand_local_path("~x", "/home/u"), "~x");
    assert_eq!(resolve_agent_path("sub", "/work", "/home/u"), "/work/sub");
    assert_eq!(resolve_agent_path(" /etc ", "/work", "/home/u"), "/etc");
    assert_eq!(resolve_agent_path("~/x", "/work", "/home/u"), "/home/u/x");
    assert_eq!(project_display_name("/work/app/"), "app");
    assert_eq!(project_display_name("///"), "/");
    assert_eq!(project_display_name("/work/.."), "/work/..");
}

#[test]
fn kept_names_are_safe() {
    assert_eq!(sanitize_filename(" my file (1).pdf "), "my_file__1_.pdf");
    assert_eq!(sanitize_filename("../../etc/passwd"), ".._.._etc_passwd");
    assert_eq!(sanitize_filename("___"), "attachment");
    assert_eq!(sanitize_filename(""), "attachment");
    assert_eq!(sanitize_filename("ü"), "attachment");
    assert_eq!(sanitize_filename(&"a".repeat(200)).len(), 120);
}
