use zerostack::color::Color;
use zerostack::fuzzy::{fuzzy_score, fuzzy_score_lowered};
use zerostack::items::{
    basename, context_percentage, contract_home, dynamic_item_color, elapsed_text, model_short,
};
use zerostack::patterns::suggest_pattern;

#[test]
fn fuzzy_empty_query_scores_zero() {
    assert_eq!(fuzzy_score("anything", ""), Some(0));
    assert_eq!(fuzzy_score("", ""), Some(0));
}

#[test]
fn fuzzy_contiguous_at_start() {
    // 1000 + 200 (word start) + 100 (first index) - 0 - 5 / 4
    assert_eq!(fuzzy_score("hello", "hel"), Some(1299));
}

#[test]
fn fuzzy_contiguous_after_separator() {
    // "main" at byte 4 after '/': 1000 + 200 - 4 - 11 / 4
    assert_eq!(fuzzy_score("src/main.rs", "main"), Some(1194));
}

#[test]
fn fuzzy_ignores_case() {
    assert_eq!(fuzzy_score("Hello World", "WORLD"), Some(1192));
    assert_eq!(fuzzy_score("Hello World", "WORLD"), fuzzy_score_lowered("hello world", "world"));
}

#[test]
fn fuzzy_contiguous_counts_bytes() {
    // "x" is the third character but starts at byte 3 ('é' takes two).
    assert_eq!(fuzzy_score("é-x", "x"), Some(1197));
}

#[test]
fn fuzzy_scattered_match_bonuses() {
    // 'a' at a word start (+3), 'd' after '_' (+3)
    assert_eq!(fuzzy_score("abc_def", "ad"), Some(6));
    // 'a' at the start (+3), 'b' right after it (+5), 'd' alone
    assert_eq!(fuzzy_score("abcd", "abd"), Some(8));
}

#[test]
fn fuzzy_scattered_match_length_penalty() {
    let item = "a123456789012345678901234567890123456789z";
    // 'a' +3, 'z' not adjacent and not at a word start; 41 characters / 20 = 2
    assert_eq!(fuzzy_score(item, "az"), Some(1));
}

#[test]
fn fuzzy_no_match() {
    assert_eq!(fuzzy_score("abc", "xyz"), None);
    assert_eq!(fuzzy_score("abc", "cb"), None);
}

#[test]
fn context_percentage_values() {
    assert_eq!(context_percentage(50, 200), Some(25));
    assert_eq!(context_percentage(300, 200), Some(150));
    assert_eq!(context_percentage(10, 0), None);
}

#[test]
fn context_percentage_colors() {
    assert_eq!(dynamic_item_color("context_percentage", Some(101)), Some(Color::Red));
    assert_eq!(dynamic_item_color("context_percentage", Some(100)), Some(Color::Yellow));
    assert_eq!(dynamic_item_color("context_percentage", Some(90)), Some(Color::Yellow));
    assert_eq!(dynamic_item_color("context_percentage", Some(89)), None);
    assert_eq!(dynamic_item_color("context_percentage", None), None);
    assert_eq!(dynamic_item_color("model", Some(150)), None);
}

#[test]
fn basename_of_paths() {
    assert_eq!(basename("/home/u/proj"), "proj");
    assert_eq!(basename("/home/u/proj/"), "proj");
    assert_eq!(basename("a/."), "a");
    assert_eq!(basename("x"), "x");
    assert_eq!(basename("/"), "/");
    assert_eq!(basename(""), "");
    assert_eq!(basename("a/.."), "a/..");
    assert_eq!(basename("./"), "./");
}

#[test]
fn basename_agrees_with_std_path() {
    for p in ["/usr/lib", "a//b", "./x/./", "rel", "/a/b/c.txt", "dir/.hidden"] {
        let expected = std::path::Path::new(p)
            .file_name()
            .and_then(|n| n.to_str())
            .unwrap_or(p)
            .to_string();
        assert_eq!(basename(p), expected, "{p}");
    }
}

#[test]
fn contract_home_paths() {
    assert_eq!(contract_home("/home/u", Some("/home/u")), "~");
    assert_eq!(contract_home("/home/u/p/q", Some("/home/u")), "~/p/q");
    assert_eq!(contract_home("/home/uu", Some("/home/u")), "/home/uu");
    assert_eq!(contract_home("/srv", Some("/home/u")), "/srv");
    assert_eq!(contract_home("/home/u", None), "/home/u");
}

#[test]
fn elapsed_text_units() {
    assert_eq!(elapsed_text(-5), "0s");
    assert_eq!(elapsed_text(59), "59s");
    assert_eq!(elapsed_text(60), "1m");
    assert_eq!(elapsed_text(3599), "59m");
    assert_eq!(elapsed_text(3600), "1h0m");
    assert_eq!(elapsed_text(7830), "2h10m");
    assert_eq!(elapsed_text(86_400), "1d0h");
    assert_eq!(elapsed_text(90_061), "1d1h");
}

#[test]
fn model_short_names() {
    assert_eq!(model_short("openai/gpt-4o"), "gpt-4o");
    assert_eq!(model_short("a/b/c"), "c");
    assert_eq!(model_short("plain"), "plain");
    assert_eq!(model_short("x/"), "");
}

#[test]
fn suggest_pattern_for_commands() {
    assert_eq!(suggest_pattern("bash", "  git status", ""), "git *");
    assert_eq!(suggest_pattern("bash", "   ", ""), "* *");
    assert_eq!(suggest_pattern("grep", "foo bar", ""), "foo*");
    assert_eq!(suggest_pattern("find_files", "", ""), "**");
    assert_eq!(suggest_pattern("web_fetch", "x", "x"), "*");
}

#[test]
fn suggest_pattern_for_paths() {
    assert_eq!(suggest_pattern("read", "src/main.rs", "src/main.rs"), "src/**/*");
    assert_eq!(suggest_pattern("edit", "main.rs", "main.rs"), "**");
    assert_eq!(suggest_pattern("write", "/a", "/a"), "//**/*");
    assert_eq!(suggest_pattern("list_dir", "/", "/"), "*/**/*");
    assert_eq!(
        suggest_pattern("read", "~/notes.txt", "/home/u/notes.txt"),
        "/home/u/**/*"
    );
}
