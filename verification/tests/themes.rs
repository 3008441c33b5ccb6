use extension_survey::document::{Doc, Number};
use extension_survey::shape::ShapeError;
use extension_survey::syntax::parse_json;
use extension_survey::theme::{
    is_theme_file, load_themes, Theme, ThemeFailure, ThemeFamily, ThemeFile,
};

fn text(s: &str) -> String {
    s.to_string()
}

fn file(path: &str, source: &str) -> ThemeFile {
    ThemeFile { path: text(path), text: text(source) }
}

const GOOD: &str = "{\"themes\": [{\"name\": \"One\", \"style\": {\"a\": 1}}, \
{\"name\": \"Two\", \"style\": {\"b\": {\"a\": 1}}}]}";

#[test]
fn theme_family_is_read_in_file_order() {
    let family = ThemeFamily::parse(GOOD).unwrap();
    assert_eq!(family.themes.len(), 2);
    assert_eq!(
        family.themes[0],
        Theme {
            name: text("One"),
            style: Doc::Table(vec![(text("a"), Doc::Number(Number::Integer(1)))]),
        }
    );
    assert_eq!(family.themes[1].name, "Two");
}

#[test]
fn theme_family_ignores_other_keys() {
    let family = ThemeFamily::parse(
        "{\"name\": \"F\", \"author\": \"A\", \"themes\": [{\"name\": \"T\", \"appearance\": \"dark\", \"style\": {}}]}",
    )
    .unwrap();
    assert_eq!(family.themes.len(), 1);
    assert_eq!(family.themes[0].style, Doc::Table(Vec::new()));
}

#[test]
fn theme_family_needs_its_themes() {
    let decode = |source: &str| ThemeFamily::from_doc(&parse_json(source).unwrap()).unwrap_err();
    assert_eq!(decode("[]"), ShapeError::NotATable);
    assert_eq!(decode("{}"), ShapeError::Missing(text("themes")));
    assert_eq!(decode("{\"themes\": {}}"), ShapeError::Mismatch(text("themes")));
    assert_eq!(decode("{\"themes\": [1]}"), ShapeError::Mismatch(text("themes")));
    assert_eq!(decode("{\"themes\": [{\"style\": {}}]}"), ShapeError::Missing(text("name")));
    assert_eq!(decode("{\"themes\": [{\"name\": \"T\"}]}"), ShapeError::Missing(text("style")));
    assert_eq!(
        decode("{\"themes\": [{\"name\": 1, \"style\": {}}]}"),
        ShapeError::Mismatch(text("name"))
    );
    assert_eq!(ThemeFamily::parse("{}"), Err(text("missing field `themes`")));
}

#[test]
fn theme_files_end_in_json() {
    assert!(is_theme_file("themes/t.json"));
    assert!(is_theme_file("t.json"));
    assert!(is_theme_file("a.b.json"));
    assert!(!is_theme_file("themes/.json"));
    assert!(!is_theme_file(".json"));
    assert!(!is_theme_file("themes/t.JSON"));
    assert!(!is_theme_file("themes/t.toml"));
    assert!(!is_theme_file("themes/json"));
    assert!(!is_theme_file("themes/t.json/"));
    assert!(!is_theme_file(""));
}

#[test]
fn themes_of_all_files_are_loaded_in_order() {
    let loaded = load_themes(&vec![
        file("themes/a.json", "{\"themes\": [{\"name\": \"A\", \"style\": {}}]}"),
        file("themes/b.json", GOOD),
    ]);
    let names: Vec<&str> = loaded.themes.iter().map(|t| t.name.as_str()).collect();
    assert_eq!(names, vec!["A", "One", "Two"]);
    assert!(loaded.failures.is_empty());
}

#[test]
fn malformed_theme_file_is_isolated() {
    let loaded = load_themes(&vec![
        file("themes/good.json", GOOD),
        file("themes/bad.json", "{\"themes\": [{\"name\": 1}]}"),
    ]);
    let names: Vec<&str> = loaded.themes.iter().map(|t| t.name.as_str()).collect();
    assert_eq!(names, vec!["One", "Two"]);
    assert_eq!(
        loaded.failures,
        vec![ThemeFailure {
            path: text("themes/bad.json"),
            message: text("invalid type for field `name`"),
        }]
    );
}

#[test]
fn malformed_theme_file_between_two_others() {
    let loaded = load_themes(&vec![
        file("themes/a.json", "{\"themes\": [{\"name\": \"A\", \"style\": {}}]}"),
        file("themes/bad.json", "not json"),
        file("themes/c.json", "{\"themes\": [{\"name\": \"C\", \"style\": {}}]}"),
    ]);
    let names: Vec<&str> = loaded.themes.iter().map(|t| t.name.as_str()).collect();
    assert_eq!(names, vec!["A", "C"]);
    assert_eq!(loaded.failures.len(), 1);
    assert_eq!(loaded.failures[0].path, "themes/bad.json");
    assert!(!loaded.failures[0].message.is_empty());
}

#[test]
fn files_that_are_no_theme_files_are_passed_over() {
    let loaded = load_themes(&vec![
        file("themes/README.md", "not json"),
        file("themes/t.json", GOOD),
    ]);
    assert_eq!(loaded.themes.len(), 2);
    assert!(loaded.failures.is_empty());
}

#[test]
fn no_files_give_no_themes() {
    let loaded = load_themes(&Vec::new());
    assert!(loaded.themes.is_empty());
    assert!(loaded.failures.is_empty());
}
