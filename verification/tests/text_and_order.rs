use reforger_launcher::order::{path_less, sort_paths};
use reforger_launcher::paths::{display_name, extension, extension_of_file_name};
use reforger_launcher::text::{
    blank, chars_of, code, contains_text, copy_texts, eq_ignoring_ascii_case, fold_code,
};

fn texts(items: &[&str]) -> Vec<String> {
    items.iter().map(|s| s.to_string()).collect()
}

#[test]
fn fold_code_maps_ascii_capitals_only() {
    assert_eq!(fold_code('A'), 'a' as u32);
    assert_eq!(fold_code('Z'), 'z' as u32);
    assert_eq!(fold_code('a'), 'a' as u32);
    assert_eq!(fold_code('@'), '@' as u32);
    assert_eq!(fold_code('['), '[' as u32);
    assert_eq!(fold_code('É'), 'É' as u32);
    assert_eq!(code('A'), 65);
}

#[test]
fn chars_of_gives_the_characters() {
    assert_eq!(chars_of("aé b"), vec!['a', 'é', ' ', 'b']);
    assert_eq!(chars_of(""), Vec::<char>::new());
}

#[test]
fn copy_texts_copies_each_text() {
    let given = texts(&["a", "", "b c"]);
    assert_eq!(copy_texts(&given), given);
}

#[test]
fn blank_accepts_empty_and_whitespace_only() {
    assert!(blank(""));
    assert!(blank(" "));
    assert!(blank(" \t\n\r"));
    assert!(blank("\u{a0}\u{2003}"));
    assert!(!blank(" a "));
    assert!(!blank("_"));
}

#[test]
fn eq_ignoring_ascii_case_folds_ascii_letters_only() {
    assert!(eq_ignoring_ascii_case("JSON", "json"));
    assert!(eq_ignoring_ascii_case("JsOn", "jSoN"));
    assert!(eq_ignoring_ascii_case("", ""));
    assert!(!eq_ignoring_ascii_case("json", "jso"));
    assert!(!eq_ignoring_ascii_case("json", "jsom"));
    assert!(!eq_ignoring_ascii_case("É", "é"));
}

#[test]
fn contains_text_finds_a_text_anywhere() {
    assert!(contains_text("alpha.json", "alpha"));
    assert!(contains_text("alpha.json", "json"));
    assert!(contains_text("alpha.json", "ha.j"));
    assert!(contains_text("alpha.json", ""));
    assert!(contains_text("", ""));
    assert!(contains_text("aab", "ab"));
    assert!(!contains_text("alpha.json", "beta"));
    assert!(!contains_text("alpha", "alphas"));
    assert!(!contains_text("", "a"));
    assert!(!contains_text("abc", "B"));
}

#[test]
fn extension_of_file_name_follows_the_last_dot() {
    assert_eq!(extension_of_file_name("a.json"), Some("json".to_string()));
    assert_eq!(extension_of_file_name("a.tar.gz"), Some("gz".to_string()));
    assert_eq!(extension_of_file_name("a."), Some("".to_string()));
    assert_eq!(extension_of_file_name("..json"), Some("json".to_string()));
    assert_eq!(extension_of_file_name(".json"), None);
    assert_eq!(extension_of_file_name("json"), None);
    assert_eq!(extension_of_file_name(""), None);
    assert_eq!(extension_of_file_name("."), None);
}

#[test]
fn extension_agrees_with_the_standard_library() {
    for path in ["/cfgs/a.json", "/cfgs/B.JSON", "/cfgs/.hidden", "/cfgs/x.tar.gz", "/cfgs/", "/", "", "a.b/c", "weird..", "/cfgs/a."] {
        let expected = std::path::Path::new(path)
            .extension()
            .map(|e| e.to_string_lossy().into_owned());
        assert_eq!(extension(path), expected, "{}", path);
    }
}

#[test]
fn display_name_is_the_final_component() {
    assert_eq!(display_name("/cfgs/alpha.json"), "alpha.json");
    assert_eq!(display_name("alpha.json"), "alpha.json");
    assert_eq!(display_name("/cfgs/sub/"), "sub");
    assert_eq!(display_name("/"), "");
    assert_eq!(display_name(""), "");
    assert_eq!(display_name("/cfgs/.."), "");
}

#[test]
fn path_less_ignores_ascii_case_first() {
    assert!(path_less("/c/a.json", "/c/B.JSON"));
    assert!(!path_less("/c/B.JSON", "/c/a.json"));
    assert!(path_less("/c/Alpha", "/c/beta"));
    assert!(path_less("/c/alpha", "/c/Beta"));
}

#[test]
fn path_less_orders_paths_that_differ_only_in_case_by_code_point() {
    assert!(path_less("A.json", "a.json"));
    assert!(!path_less("a.json", "A.json"));
    assert!(path_less("aB", "ab"));
}

#[test]
fn path_less_is_strict_and_puts_a_prefix_first() {
    assert!(!path_less("a.json", "a.json"));
    assert!(!path_less("", ""));
    assert!(path_less("", "a"));
    assert!(path_less("a", "a.json"));
    assert!(!path_less("a.json", "a"));
    assert!(path_less("a1", "a2"));
}

#[test]
fn sort_paths_gives_the_listing_order() {
    let sorted = sort_paths(&texts(&["/c/gamma.json", "/c/B.JSON", "/c/a.json", "/c/b.json", "/c/A.json"]));
    assert_eq!(sorted, texts(&["/c/A.json", "/c/a.json", "/c/B.JSON", "/c/b.json", "/c/gamma.json"]));
}

#[test]
fn sort_paths_keeps_every_path_as_often_as_given() {
    let sorted = sort_paths(&texts(&["b", "a", "b", "c", "a"]));
    assert_eq!(sorted, texts(&["a", "a", "b", "b", "c"]));
    assert_eq!(sort_paths(&Vec::new()), Vec::<String>::new());
}
