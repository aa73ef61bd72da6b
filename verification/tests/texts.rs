use agy_acp::paths::conversation_name;
use agy_acp::paths::joined_path;
use agy_acp::paths::renamed;
use agy_acp::text;
use agy_acp::text::begins_with;
use agy_acp::text::blank;
use agy_acp::text::byte_length;
use agy_acp::text::first_chars;
use agy_acp::text::joined;
use agy_acp::text::numeral_of;
use agy_acp::text::same_text;
use agy_acp::text::split_lines;
use agy_acp::text::trimmed;
use agy_acp::text::trimmed_end;
use agy_acp::text::trimmed_start;
use agy_acp::text::white_space;

const SAMPLES: [&str; 14] = [
    "",
    " ",
    "\n",
    "\r\n",
    "a",
    " a ",
    "a\nb",
    "a\r\nb\r\n",
    "a\rb\n\n",
    "\u{a0}x\u{3000}",
    "\r",
    "a\n\r",
    "größe\n✅ 𝄞 \t",
    "x\r\r\ny",
];

#[test]
fn white_space_is_that_of_unicode() {
    for n in 0..=0x10FFFFu32 {
        if let Some(c) = char::from_u32(n) {
            assert_eq!(white_space(c), c.is_whitespace());
        }
    }
}

#[test]
fn trimming_and_lines_are_those_of_strings() {
    for s in SAMPLES {
        assert_eq!(trimmed(s), s.trim());
        assert_eq!(trimmed_start(s), s.trim_start());
        assert_eq!(trimmed_end(s), s.trim_end());
        assert_eq!(blank(s), s.trim().is_empty());
        assert_eq!(split_lines(s), s.lines().collect::<Vec<_>>());
        assert_eq!(byte_length(s), s.len());
        for t in SAMPLES {
            assert_eq!(same_text(s, t), s == t);
            assert_eq!(begins_with(s, t), s.starts_with(t));
            assert_eq!(text::concat(s, t), format!("{s}{t}"));
        }
        for n in 0..5 {
            assert_eq!(first_chars(s, n), s.chars().take(n).collect::<String>());
        }
    }
}

#[test]
fn joining_is_that_of_slices() {
    let parts: Vec<String> = SAMPLES.iter().map(|s| s.to_string()).collect();
    for from in 0..=parts.len() {
        assert_eq!(joined(&parts, from, ", "), parts[from..].join(", "));
    }
}

#[test]
fn numerals_are_decimal() {
    for n in [0, 1, -1, 9, 10, -10, 1234567890, i64::MAX, i64::MIN] {
        assert_eq!(numeral_of(n), n.to_string());
    }
}

#[test]
fn paths_are_joined_and_renamed_like_those_of_the_system() {
    let paths = [
        "", "/", ".", "..", "a", "a/", "/a", "a/b", "a//b", "a/./b", "a/b/.", "a/b/..", "./a",
        "./.", "//", "/.", "/a//", "a/b/./", "...", "a/.hidden", "./", "a/..", "/..", "a/.//",
    ];
    for path in paths {
        for name in ["x.json", "y", "/abs"] {
            let std_path = std::path::Path::new(path);
            assert_eq!(joined_path(path, name), std_path.join(name).to_str().unwrap());
            assert_eq!(renamed(path, name), std_path.with_file_name(name).to_str().unwrap());
        }
    }
}

#[test]
fn conversations_are_named_by_their_files() {
    for name in ["a.db", ".db", "..db", "a.b.db", "a.db-wal", "adb", "db", "a.DB", "a.db.", "x"] {
        let path = std::path::Path::new(name);
        let expected = if path.extension().map(|x| x == "db").unwrap_or(false) {
            path.file_stem().map(|s| s.to_string_lossy().to_string())
        } else {
            None
        };
        assert_eq!(conversation_name(name), expected);
    }
}
