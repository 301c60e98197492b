use drill::config;
use drill::editor;
use drill::highlight::{code_line, fill_line, format_code_line, room_left, CodeHighlighter, Painted};
use drill::json;
use drill::json::Json;
use drill::screen::{align_right, write_blanks, Ink, Look, TextLine};
use drill::text;
use drill::tools;

fn texts(items: &[&str]) -> Vec<String> {
    items.iter().map(|s| s.to_string()).collect()
}

fn shown(line: &TextLine) -> String {
    line.spans.iter().map(|s| s.text.as_str()).collect()
}

const SAMPLES: [&str; 10] = [
    "",
    "a",
    "  olá mundo \t\n",
    "linha um\nlinha dois\r\nfim",
    "a,b,,c",
    ",",
    "\u{3000}ideográfico\u{3000}",
    "/abc//",
    "ção ção",
    "\n\n",
];

#[test]
fn white_space_as_std_has_it() {
    for n in 0..=0x10ffff_u32 {
        if let Some(c) = char::from_u32(n) {
            assert_eq!(text::is_white_space(c), c.is_whitespace(), "{n:x}");
        }
    }
}

#[test]
fn trimming_as_std_does_it() {
    for s in SAMPLES {
        assert_eq!(text::trim(s), s.trim());
        assert_eq!(text::trim_start(s), s.trim_start());
        assert_eq!(text::trim_end(s), s.trim_end());
        assert_eq!(text::trim_end_of(s, '/'), s.trim_end_matches('/'));
        assert_eq!(text::trim_start_of(s, '/'), s.trim_start_matches('/'));
    }
}

#[test]
fn cutting_as_std_does_it() {
    for s in SAMPLES {
        assert_eq!(text::split(s, ','), s.split(',').map(String::from).collect::<Vec<_>>());
        assert_eq!(text::lines(s), s.lines().map(String::from).collect::<Vec<_>>());
        assert_eq!(text::splitn(s, ',', 2), s.splitn(2, ',').map(String::from).collect::<Vec<_>>());
        assert_eq!(text::replace(s, "ção", "x"), s.replace("ção", "x"));
        assert_eq!(text::starts_with(s, "a"), s.starts_with("a"));
        assert_eq!(text::ends_with(s, "/"), s.ends_with("/"));
        assert_eq!(text::contains(s, "b"), s.contains("b"));
        assert_eq!(text::strip_prefix(s, "a"), s.strip_prefix("a").map(String::from));
        assert_eq!(text::chars_of(s), s.chars().collect::<Vec<_>>());
    }
    assert_eq!(text::find("ação b", "b"), Some(5));
    assert_eq!(text::rfind("a/b/c", '/'), Some(3));
    assert_eq!(text::rfind("abc", '/'), None);
    assert_eq!(text::prefix("olá", 2), "ol");
    assert_eq!(text::suffix("olá", 2), "á");
    assert_eq!(text::join(&texts(&["a", "b", "c"]), ", "), "a, b, c");
    assert_eq!(text::pad("ab", 4), "ab  ");
    assert_eq!(text::pad("abcde", 4), "abcde");
}

#[test]
fn numbers_as_std_has_them() {
    for n in [0u64, 7, 10, 999, u64::MAX] {
        assert_eq!(text::write_u64(n), n.to_string());
    }
    for n in [0i64, -1, 42, i64::MAX, i64::MIN] {
        assert_eq!(text::write_i64(n), n.to_string());
    }
    for n in [0u128, 255, 0xdead_beef, u128::MAX] {
        assert_eq!(text::write_hex(n), format!("{n:x}"));
    }
    for s in ["", "-", "+", "0", "+7", "-12", "12a", " 1", "9223372036854775807", "9223372036854775808",
        "-9223372036854775808", "18446744073709551615", "18446744073709551616", "007"]
    {
        assert_eq!(text::parse_i64(s), s.parse::<i64>().ok(), "{s}");
        assert_eq!(text::parse_u64(s), s.parse::<u64>().ok(), "{s}");
    }
}

#[test]
fn texts_are_ordered_as_std_orders_them() {
    let v = texts(&["b", "a", "ab", "", "á", "Z", "a", "\u{10000}", "\u{ffff}"]);
    let mut wanted = v.clone();
    wanted.sort();
    assert_eq!(text::sort(&v), wanted);
    for a in &v {
        for b in &v {
            assert_eq!(text::is_before(a, b), a < b);
        }
    }
}

#[test]
fn paths_are_joined_as_std_joins_them() {
    for (base, rel) in [("/a", "b"), ("/a/", "b"), ("", "b"), ("/a", "/b"), ("a", "")] {
        let wanted = std::path::Path::new(base).join(rel);
        if !rel.starts_with('/') {
            assert_eq!(config::join_path(base, rel), wanted.to_str().unwrap());
        }
        assert_eq!(tools::resolve(rel, base), wanted.to_str().unwrap());
    }
    assert_eq!(config::config_path(Some("/x.json".to_string()), None), "/x.json");
    assert_eq!(
        config::config_path(None, Some("/home/a".to_string())),
        "/home/a/.drill/config.json"
    );
}

#[test]
fn byte_lengths_and_positions() {
    for s in SAMPLES {
        assert_eq!(tools::byte_len(s), s.len());
        for (i, (byte, _)) in s.char_indices().enumerate() {
            assert_eq!(editor::char_to_byte(s, i), byte);
        }
        assert_eq!(editor::char_to_byte(s, 1000), s.len());
    }
    assert_eq!(editor::split_words(" a  b\tc "), texts(&["a", "b", "c"]));
}

#[test]
fn wrapped_lines_fit_the_width() {
    let lines = editor::wrap_text("um dois tres quatro cinco", 9);
    assert_eq!(lines, texts(&["um dois", "tres", "quatro", "cinco"]));
    for l in lines {
        assert!(l.chars().count() <= 9);
    }
    assert_eq!(editor::one_line("a\nb"), "a b");
}

#[test]
fn json_goes_to_text_and_back() {
    let raw = r#"{"a":[1,-2,18446744073709551615,0.5,null,true],"b":{"c":"é\n"}}"#;
    let v = json::parse(raw).unwrap();
    assert_eq!(json::write(&v), raw);
    assert_eq!(v.copy(), v);
    let items = v.items_field("a").unwrap();
    assert_eq!(items[0].as_int(), Some(1));
    assert_eq!(items[1].as_int(), Some(-2));
    assert_eq!(items[1].as_nat(), None);
    assert_eq!(items[2].as_int(), None);
    assert_eq!(items[2].as_nat(), Some(u64::MAX));
    assert_eq!(items[3].as_int(), None);
    assert!(matches!(items[3], Json::Real(_)));
    assert_eq!(v.get("b").unwrap().text_field("c"), Some("é\n"));
    assert!(json::parse("{").is_none());
    assert!(json::parse("").is_none());
}

#[test]
fn json_values_are_shared_with_serde() {
    let raw: serde_json::Value = serde_json::from_str(r#"{"x":[1.5,2]}"#).unwrap();
    let tree = json::from_value(&raw);
    assert_eq!(json::to_value(&tree), raw);
    assert_eq!(tree.items_field("x").unwrap().len(), 2);
}

#[test]
fn later_entry_of_a_key_counts() {
    let v = Json::empty_object().with("k", Json::Int(1)).with("k", Json::Int(2));
    assert_eq!(v.int_field("k"), Some(2));
    assert_eq!(json::write(&v), r#"{"k":2}"#);
}

#[test]
fn code_is_coloured_and_filled() {
    let h = CodeHighlighter::new();
    let line = h.highlight_line("fn main() {}", "rs", 20);
    assert_eq!(shown(&line), "fn main() {}        ");
    assert!(line.spans.len() > 2);
    let same = h.highlight_line("fn main() {}", "rust", 20);
    assert_eq!(same, line);
    let plain = h.highlight_line("fn main() {}", "nenhuma-linguagem", 20);
    assert_eq!(shown(&plain), "fn main() {}        ");
    assert_eq!(plain.spans.len(), 2);
    assert_ne!(plain, line);
    let long = h.highlight_line("abcdef", "nenhuma-linguagem", 3);
    assert_eq!(shown(&long), "abcdef");
}

#[test]
fn text_of_code_is_coloured_line_by_line() {
    let h = CodeHighlighter::new();
    let code = "/* um\ndois */\nfn x() {}\n";
    let lines = h.highlight_code(code, "rust");
    assert_eq!(lines.len(), 3);
    assert_eq!(lines.iter().map(shown).collect::<String>(), code);
    // The comment goes on over the end of its line.
    assert_eq!(lines[0].spans.last().unwrap().look, lines[1].spans[0].look);
    let plain = h.highlight_code(code, "nenhuma-linguagem");
    assert_eq!(plain.len(), 3);
    assert_eq!(plain[2].spans.len(), 1);
}

#[test]
fn lines_are_filled_to_their_width() {
    let mut line = TextLine::one("abc", Look::plain(Ink::TextMain));
    assert_eq!(room_left(&line, 5), 2);
    fill_line(&mut line, 5, Ink::CodeBg);
    assert_eq!(shown(&line), "abc  ");
    fill_line(&mut line, 2, Ink::CodeBg);
    assert_eq!(shown(&line), "abc  ");
    let pieces = vec![Painted { red: 1, green: 2, blue: 3, text: "x".to_string() }];
    let painted = code_line(&pieces, 1);
    assert_eq!(painted.spans.len(), 1);
    assert_eq!(painted.spans[0].look.fg, Some(Ink::Rgb(1, 2, 3)));
    assert_eq!(shown(&format_code_line("let x = 1;")), "let x = 1;");
    assert_eq!(write_blanks(3), "   ");
    assert_eq!(align_right("ab", 4), "  ab");
}
