use extension_survey::extensions::ExtensionsToml;
use extension_survey::github::create_github_issue_url;
use extension_survey::manifest::ManifestError;
use extension_survey::survey::{Checkout, Outcome, Survey, WorkTree};
use extension_survey::surveys::extension_json_usage::LegacyManifest;
use extension_survey::surveys::theme_property_usage::ThemeFindings;
use extension_survey::surveys::tree_sitter_grammars::{
    declarers_of, first_of_source, index_grammars, render_duplicates, source_of, GrammarSource,
};
use extension_survey::surveys::{ExtensionJsonUsage, ThemePropertyUsage, TreeSitterGrammars};
use extension_survey::extension::GrammarManifestEntry;
use extension_survey::theme::{Theme, ThemeFailure, ThemeFile};
use extension_survey::document::Doc;

const PROPERTY: &str = "scrollbar_thumb.background";

const BODY_START: &str = "This extension has been identified as using the deprecated `scrollbar_thumb.background` style property.\n\nThis property has been deprecated in favor of `scrollbar.thumb.background`. Please migrate to using the new property.\n\nThe following themes are impacted:\n\n";

const MIGRATION_BODY: &str = "This extension has been identified as still using the legacy `extension.json` manifest format.\n\nExtensions should use the new `extension.toml` manifest format. See the [Zed extension documentation](https://zed.dev/docs/extensions/developing-extensions#directory-structure-of-a-zed-extension) for more information.";

fn text(s: &str) -> String {
    s.to_string()
}

fn registry(ids: &[&str]) -> ExtensionsToml {
    let mut source = String::new();
    for id in ids {
        source.push_str(&format!("[{id}]\nsubmodule = \"{id}\"\nversion = \"0.0.1\"\n"));
    }
    ExtensionsToml::parse(&source).unwrap()
}

fn manifest_toml(id: &str, rest: &str) -> Option<String> {
    Some(format!(
        "id = \"{id}\"\nname = \"{id}\"\nversion = \"0.0.1\"\nschema_version = 1\n{rest}"
    ))
}

fn manifest_json(id: &str, rest: &str) -> Option<String> {
    Some(format!(
        "{{\"id\": \"{id}\", \"name\": \"{id}\", \"version\": \"0.0.1\", \"schema_version\": 0{rest}}}"
    ))
}

fn theme_file(path: &str, themes: &[(&str, &str)]) -> ThemeFile {
    let items: Vec<String> = themes
        .iter()
        .map(|(name, style)| format!("{{\"name\": \"{name}\", \"style\": {style}}}"))
        .collect();
    ThemeFile { path: text(path), text: format!("{{\"themes\": [{}]}}", items.join(", ")) }
}

fn tree(checkouts: Vec<(&str, Checkout)>) -> WorkTree {
    WorkTree { checkouts: checkouts.into_iter().map(|(id, c)| (text(id), c)).collect() }
}

fn nothing() -> Checkout {
    Checkout { manifest_toml: None, manifest_json: None, themes: None }
}

fn property_survey() -> ThemePropertyUsage {
    ThemePropertyUsage::new(vec![text(PROPERTY)])
}

#[test]
fn end_to_end_theme_property_survey() {
    let registry = ExtensionsToml::parse("[ext1]\nlocation = \"ext1\"\n").unwrap();
    assert_eq!(registry.extensions[0].1.extension_dir("work"), "work/ext1");
    let checkout = Checkout {
        manifest_toml: manifest_toml("ext1", "repository = \"https://github.com/x/y\"\n"),
        manifest_json: None,
        themes: Some(vec![theme_file(
            "work/ext1/themes/t.json",
            &[("One Dark", "{\"scrollbar_thumb.background\": \"#fff\"}")],
        )]),
    };
    let report = property_survey().run(&registry, &tree(vec![("ext1", checkout)]));
    let line = "Theme \"One Dark\" is using deprecated style property `scrollbar_thumb.background`";
    let link = create_github_issue_url(
        "https://github.com/x/y",
        "Deprecated ``scrollbar_thumb.background`` usage",
        &format!("{BODY_START}- {line}\n"),
    )
    .unwrap();
    assert!(link.contains("title=Deprecated+%60%60scrollbar_thumb.background%60%60+usage"));
    assert_eq!(
        report,
        format!(
            "- [ ] `ext1`\n  - Repository: [https://github.com/x/y](https://github.com/x/y)\n  - Issue: TBD\n    - [Create Issue]({link})\n  - Errors:\n    - {line}\n\n"
        )
    );
}

#[test]
fn extension_without_themes_directory_adds_nothing() {
    let registry = registry(&["a", "b"]);
    let without = Checkout {
        manifest_toml: Some(text("not a manifest")),
        manifest_json: Some(text("{")),
        themes: None,
    };
    let survey = property_survey();
    assert_eq!(survey.survey(&without), Outcome::Skipped);
    assert_eq!(survey.render("a", &Outcome::Skipped), "");
    assert_eq!(survey.run(&registry, &tree(vec![("a", without), ("b", nothing())])), "\n");
}

#[test]
fn extension_without_checkout_adds_nothing() {
    let registry = registry(&["a", "b"]);
    assert_eq!(property_survey().run(&registry, &tree(Vec::new())), "\n");
    assert_eq!(ExtensionJsonUsage.run(&registry, &tree(Vec::new())), "## Extensions using `extension.json`\n\n");
    assert_eq!(TreeSitterGrammars.run(&registry, &tree(Vec::new())), "\n");
}

#[test]
fn unparseable_manifest_excludes_the_themes() {
    let themes = vec![
        theme_file("themes/good.json", &[("T", "{\"scrollbar_thumb.background\": 1}")]),
        ThemeFile { path: text("themes/bad.json"), text: text("{") },
    ];
    let checkout = Checkout {
        manifest_toml: Some(text("id = 1")),
        manifest_json: None,
        themes: Some(themes.clone()),
    };
    let survey = property_survey();
    let outcome = survey.survey(&checkout);
    assert_eq!(
        outcome,
        Outcome::ManifestError(ManifestError::Parse(text("invalid type for field `id`")))
    );
    assert_eq!(
        survey.render("a", &outcome),
        "- [ ] `a`\n  - Repository: ???\n  - Issue: TBD\n  - Errors:\n    - Failed to load extension manifest: invalid type for field `id`\n"
    );
    let other = Checkout { themes: Some(Vec::new()), ..checkout.clone() };
    assert_eq!(survey.survey(&other), outcome);
    let loaded = extension_survey::theme::load_themes(&themes);
    assert_eq!(loaded.themes.len(), 1);
    assert_eq!(loaded.failures.len(), 1);
}

#[test]
fn missing_manifest_is_reported() {
    let checkout = Checkout { manifest_toml: None, manifest_json: None, themes: Some(Vec::new()) };
    let survey = property_survey();
    let outcome = survey.survey(&checkout);
    assert_eq!(outcome, Outcome::ManifestError(ManifestError::NotFound));
    assert_eq!(
        survey.render("a", &outcome),
        "- [ ] `a`\n  - Repository: ???\n  - Issue: TBD\n  - Errors:\n    - Failed to load extension manifest: no extension manifest found\n"
    );
}

#[test]
fn legacy_manifest_serves_the_theme_survey() {
    let checkout = Checkout {
        manifest_toml: None,
        manifest_json: manifest_json("a", ""),
        themes: Some(vec![theme_file("themes/t.json", &[("T", "{\"scrollbar_thumb.background\": 1}")])]),
    };
    let outcome = property_survey().survey(&checkout);
    assert_eq!(
        outcome,
        Outcome::Matched(ThemeFindings {
            repository: None,
            failures: Vec::new(),
            themes: vec![text("T")],
        })
    );
    assert_eq!(
        property_survey().render("a", &outcome),
        "- [ ] `a`\n  - Repository: ???\n  - Issue: TBD\n  - Errors:\n    - Theme \"T\" is using deprecated style property `scrollbar_thumb.background`\n"
    );
}

#[test]
fn extension_whose_themes_do_not_use_the_property_adds_nothing() {
    let checkout = Checkout {
        manifest_toml: manifest_toml("a", ""),
        manifest_json: None,
        themes: Some(vec![theme_file("themes/t.json", &[("T", "{\"other\": 1}")])]),
    };
    let survey = property_survey();
    assert_eq!(survey.survey(&checkout), Outcome::NoMatch);
    assert_eq!(survey.render("a", &Outcome::NoMatch), "");
    assert_eq!(survey.run(&registry(&["a"]), &tree(vec![("a", checkout)])), "\n");
}

#[test]
fn per_file_isolation_in_the_report() {
    let checkout = Checkout {
        manifest_toml: manifest_toml("e", ""),
        manifest_json: None,
        themes: Some(vec![
            theme_file(
                "themes/good.json",
                &[
                    ("First", "{\"scrollbar_thumb.background\": 1}"),
                    ("Second", "{}"),
                    ("Third", "{\"scrollbar_thumb.background\": null}"),
                ],
            ),
            ThemeFile { path: text("themes/bad.json"), text: text("{\"themes\": 3}") },
        ]),
    };
    let report = property_survey().run(&registry(&["e"]), &tree(vec![("e", checkout)]));
    assert_eq!(
        report,
        "- [ ] `e`\n  - Repository: ???\n  - Issue: TBD\n  - Errors:\n    - Failed to parse theme file at \"themes/bad.json\": invalid type for field `themes`\n    - Theme \"First\" is using deprecated style property `scrollbar_thumb.background`\n    - Theme \"Third\" is using deprecated style property `scrollbar_thumb.background`\n\n"
    );
    assert_eq!(report.matches("Failed to parse theme file").count(), 1);
}

#[test]
fn theme_file_failure_alone_is_reported_without_a_link() {
    let checkout = Checkout {
        manifest_toml: manifest_toml("e", "repository = \"https://github.com/x/y\"\n"),
        manifest_json: None,
        themes: Some(vec![ThemeFile { path: text("themes/bad.json"), text: text("{}") }]),
    };
    let survey = property_survey();
    let outcome = survey.survey(&checkout);
    assert_eq!(
        outcome,
        Outcome::Matched(ThemeFindings {
            repository: Some(text("https://github.com/x/y")),
            failures: vec![ThemeFailure {
                path: text("themes/bad.json"),
                message: text("missing field `themes`"),
            }],
            themes: Vec::new(),
        })
    );
    assert_eq!(
        survey.render("e", &outcome),
        "- [ ] `e`\n  - Repository: [https://github.com/x/y](https://github.com/x/y)\n  - Issue: TBD\n  - Errors:\n    - Failed to parse theme file at \"themes/bad.json\": missing field `themes`\n"
    );
}

#[test]
fn theme_names_and_paths_are_quoted_with_escapes() {
    let outcome = Outcome::Matched(ThemeFindings {
        repository: None,
        failures: vec![ThemeFailure { path: text("themes/a \"b\".json"), message: text("m") }],
        themes: vec![text("Say \"hi\"\\")],
    });
    assert_eq!(
        ThemePropertyUsage::new(vec![text("b"), text("a")]).render("e", &outcome),
        "- [ ] `e`\n  - Repository: ???\n  - Issue: TBD\n  - Errors:\n    - Failed to parse theme file at \"themes/a \\\"b\\\".json\": m\n    - Theme \"Say \\\"hi\\\"\\\\\" is using deprecated style property `a` in section `b`\n"
    );
}

#[test]
fn repository_that_is_no_url_gives_a_line_without_a_link() {
    let outcome = Outcome::Matched(ThemeFindings {
        repository: Some(text("not a url")),
        failures: Vec::new(),
        themes: vec![text("T")],
    });
    assert_eq!(
        property_survey().render("e", &outcome),
        "- [ ] `e`\n  - Repository: [not a url](not a url)\n  - Issue: TBD\n    - No issue link: relative URL without a base\n  - Errors:\n    - Theme \"T\" is using deprecated style property `scrollbar_thumb.background`\n"
    );
    let mail = Outcome::Matched(LegacyManifest { repository: Some(text("mailto:a@example.com")) });
    assert_eq!(
        ExtensionJsonUsage.render("e", &mail),
        "- [ ] `e`\n  - Repository URL: [mailto:a@example.com](mailto:a@example.com)\n  - Issue: \n    - No issue link: invalid repository URL\n"
    );
}

#[test]
fn matching_keeps_the_order_of_the_themes() {
    let theme = |name: &str, style: Doc| Theme { name: text(name), style };
    let uses = || Doc::Table(vec![(text("a"), Doc::Null)]);
    let themes = vec![
        theme("1", uses()),
        theme("2", Doc::Table(Vec::new())),
        theme("3", uses()),
        theme("4", Doc::Null),
        theme("1", uses()),
    ];
    let survey = ThemePropertyUsage::new(vec![text("a")]);
    assert_eq!(survey.matching(&themes), vec![text("1"), text("3"), text("1")]);
    assert!(survey.matching(&Vec::new()).is_empty());
}

#[test]
fn sections_follow_the_order_of_the_registry() {
    let checkout = |name: &str| Checkout {
        manifest_toml: manifest_toml(name, ""),
        manifest_json: None,
        themes: Some(vec![theme_file("t.json", &[(name, "{\"scrollbar_thumb.background\": 1}")])]),
    };
    let report = property_survey().run(
        &registry(&["b", "c", "a"]),
        &tree(vec![("c", checkout("C")), ("a", checkout("A")), ("b", checkout("B"))]),
    );
    let section = |id: &str, name: &str| {
        format!("- [ ] `{id}`\n  - Repository: ???\n  - Issue: TBD\n  - Errors:\n    - Theme \"{name}\" is using deprecated style property `scrollbar_thumb.background`\n")
    };
    assert_eq!(report, format!("{}{}{}\n", section("a", "A"), section("b", "B"), section("c", "C")));
}

#[test]
fn extension_json_survey_lists_legacy_manifests() {
    let with_repository = Checkout {
        manifest_toml: None,
        manifest_json: manifest_json("a", ", \"repository\": \"https://github.com/x/a\""),
        themes: None,
    };
    let without_repository =
        Checkout { manifest_toml: None, manifest_json: manifest_json("b", ""), themes: None };
    let migrated =
        Checkout { manifest_toml: manifest_toml("c", ""), manifest_json: None, themes: None };
    let broken = Checkout { manifest_toml: None, manifest_json: Some(text("{}")), themes: None };
    let report = ExtensionJsonUsage.run(
        &registry(&["a", "b", "c", "d"]),
        &tree(vec![
            ("a", with_repository),
            ("b", without_repository),
            ("c", migrated),
            ("d", broken),
        ]),
    );
    let link =
        create_github_issue_url("https://github.com/x/a", "Migrate to `extension.toml`", MIGRATION_BODY)
            .unwrap();
    assert_eq!(
        report,
        format!(
            "## Extensions using `extension.json`\n- [ ] `a`\n  - Repository URL: [https://github.com/x/a](https://github.com/x/a)\n  - Issue: \n    - [Create Issue]({link})\n- [ ] `b`\n???\n  - Issue: \n- [ ] `d`\n???\n  - Issue: \n    - Failed to load extension manifest: missing field `id`\n\n"
        )
    );
}

#[test]
fn extension_json_survey_outcomes() {
    assert_eq!(ExtensionJsonUsage.survey(&nothing()), Outcome::Skipped);
    let legacy = Checkout { manifest_toml: None, manifest_json: manifest_json("b", ""), themes: None };
    assert_eq!(
        ExtensionJsonUsage.survey(&legacy),
        Outcome::Matched(LegacyManifest { repository: None })
    );
    assert_eq!(ExtensionJsonUsage.render("x", &Outcome::NoMatch), "");
    assert_eq!(ExtensionJsonUsage.render("x", &Outcome::Skipped), "");
}

fn grammars_checkout(id: &str, grammars: &str) -> Checkout {
    Checkout { manifest_toml: manifest_toml(id, grammars), manifest_json: None, themes: None }
}

#[test]
fn grammar_survey_lists_the_grammars() {
    let report = TreeSitterGrammars.run(
        &registry(&["a", "b", "c"]),
        &tree(vec![
            (
                "a",
                grammars_checkout(
                    "a",
                    "[grammars.x]\nrepository = \"https://github.com/g/x.git\"\nrev = \"1\"\npath = \"sub\"\n[grammars.y]\nrepository = \"https://github.com/g/y\"\ncommit = \"2\"\n",
                ),
            ),
            ("b", grammars_checkout("b", "")),
            ("c", Checkout { manifest_toml: None, manifest_json: manifest_json("c", ""), themes: None }),
        ]),
    );
    assert_eq!(
        report,
        "- a\n  - x\n    - Repo: https://github.com/g/x.git\n    - Rev: 1\n    - Path: sub\n  - y\n    - Repo: https://github.com/g/y\n    - Rev: 2\n\n"
    );
}

#[test]
fn grammar_survey_reports_an_unparseable_manifest() {
    let checkout = Checkout { manifest_toml: Some(text("id = 1")), manifest_json: None, themes: None };
    let outcome = TreeSitterGrammars.survey(&checkout);
    assert_eq!(
        TreeSitterGrammars.render("a", &outcome),
        "- a\n    - Failed to load extension manifest: invalid type for field `id`\n"
    );
    assert_eq!(TreeSitterGrammars.survey(&nothing()), Outcome::Skipped);
    assert_eq!(TreeSitterGrammars.survey(&grammars_checkout("b", "")), Outcome::NoMatch);
}

#[test]
fn duplicate_grammar_sources_are_reported_once() {
    let report = TreeSitterGrammars.run(
        &registry(&["a", "b", "c"]),
        &tree(vec![
            (
                "a",
                grammars_checkout("a", "[grammars.x]\nrepository = \"https://github.com/g/x.git\"\nrev = \"1\"\n"),
            ),
            (
                "b",
                grammars_checkout("b", "[grammars.other]\nrepository = \"https://github.com/g/x\"\nrev = \"2\"\n"),
            ),
            (
                "c",
                grammars_checkout("c", "[grammars.z]\nrepository = \"https://github.com/g/z\"\nrev = \"3\"\n"),
            ),
        ]),
    );
    assert_eq!(
        report,
        "- a\n  - x\n    - Repo: https://github.com/g/x.git\n    - Rev: 1\n- b\n  - other\n    - Repo: https://github.com/g/x\n    - Rev: 2\n- c\n  - z\n    - Repo: https://github.com/g/z\n    - Rev: 3\n\nGrammars provided by multiple extensions:\nGrammar: https://github.com/g/x\n  - a\n  - b\n"
    );
    assert!(!report.contains("Grammar: https://github.com/g/z"));
}

fn source(repository: &str, path: Option<&str>) -> GrammarSource {
    GrammarSource { repository: text(repository), path: path.map(text) }
}

#[test]
fn grammar_source_is_the_repository_without_git_and_the_path() {
    let grammar = |repository: &str, path: Option<&str>| GrammarManifestEntry {
        repository: text(repository),
        rev: text("1"),
        path: path.map(text),
    };
    assert_eq!(
        source_of(&grammar("https://github.com/g/x.git", None)),
        source("https://github.com/g/x", None)
    );
    assert_eq!(
        source_of(&grammar("https://github.com/g/x", None)),
        source("https://github.com/g/x", None)
    );
    assert_eq!(
        source_of(&grammar("https://github.com/g/x.git.git", None)),
        source("https://github.com/g/x.git", None)
    );
    assert_eq!(
        source_of(&grammar("https://github.com/g/x.git", Some("a/b"))),
        source("https://github.com/g/x", Some("a/b"))
    );
    assert!(source("r", Some("a")).same(&source("r", Some("a"))));
    assert!(source("r", None).same(&source("r", None)));
    assert!(!source("r", Some("a")).same(&source("r", Some("b"))));
    assert!(!source("r", Some("a")).same(&source("r", None)));
    assert!(!source("r", None).same(&source("r", Some(""))));
    assert!(!source("r/a", None).same(&source("r", Some("a"))));
    assert_eq!(source("r", Some("a")).copy(), source("r", Some("a")));
}

#[test]
fn index_groups_the_declarers_by_source() {
    let declarations = vec![
        (source("s1", None), text("a")),
        (source("s2", None), text("a")),
        (source("s1", None), text("b")),
        (source("s3", None), text("c")),
        (source("s2", None), text("c")),
        (source("s1", None), text("c")),
        (source("s1", None), text("b")),
    ];
    assert!(first_of_source(&declarations, 0));
    assert!(first_of_source(&declarations, 1));
    assert!(!first_of_source(&declarations, 2));
    assert!(first_of_source(&declarations, 3));
    assert!(!first_of_source(&declarations, 5));
    assert_eq!(
        declarers_of(&declarations, &source("s1", None)),
        vec![text("a"), text("b"), text("c")]
    );
    assert!(declarers_of(&declarations, &source("s4", None)).is_empty());
    assert!(declarers_of(&declarations, &source("s1", Some(""))).is_empty());
    let index = index_grammars(&declarations);
    assert_eq!(
        index,
        vec![
            (source("s1", None), vec![text("a"), text("b"), text("c")]),
            (source("s2", None), vec![text("a"), text("c")]),
            (source("s3", None), vec![text("c")]),
        ]
    );
    assert_eq!(
        render_duplicates(&index),
        "Grammars provided by multiple extensions:\nGrammar: s1\n  - a\n  - b\n  - c\nGrammar: s2\n  - a\n  - c\n"
    );
}

#[test]
fn single_declarer_is_no_duplicate() {
    let index =
        index_grammars(&vec![(source("s1", None), text("a")), (source("s2", None), text("b"))]);
    assert_eq!(index.len(), 2);
    assert_eq!(render_duplicates(&index), "");
    assert_eq!(render_duplicates(&Vec::new()), "");
}

#[test]
fn one_extension_with_two_grammars_of_one_source_is_no_duplicate() {
    let declarations = vec![(source("s", None), text("a")), (source("s", None), text("a"))];
    let index = index_grammars(&declarations);
    assert_eq!(index, vec![(source("s", None), vec![text("a")])]);
    assert_eq!(render_duplicates(&index), "");
    let report = TreeSitterGrammars.run(
        &registry(&["a"]),
        &tree(vec![(
            "a",
            grammars_checkout(
                "a",
                "[grammars.x]\nrepository = \"https://github.com/g/x.git\"\nrev = \"1\"\n[grammars.y]\nrepository = \"https://github.com/g/x\"\nrev = \"2\"\n",
            ),
        )]),
    );
    assert_eq!(
        report,
        "- a\n  - x\n    - Repo: https://github.com/g/x.git\n    - Rev: 1\n  - y\n    - Repo: https://github.com/g/x\n    - Rev: 2\n\n"
    );
}

#[test]
fn extension_that_declares_a_shared_source_twice_is_listed_once() {
    let declarations = vec![
        (source("s", None), text("a")),
        (source("s", None), text("a")),
        (source("s", None), text("b")),
    ];
    let index = index_grammars(&declarations);
    assert_eq!(index, vec![(source("s", None), vec![text("a"), text("b")])]);
    assert_eq!(
        render_duplicates(&index),
        "Grammars provided by multiple extensions:\nGrammar: s\n  - a\n  - b\n"
    );
}

#[test]
fn sources_are_told_apart_by_repository_and_path() {
    let report = TreeSitterGrammars.run(
        &registry(&["a", "b"]),
        &tree(vec![
            (
                "a",
                grammars_checkout(
                    "a",
                    "[grammars.g]\nrepository = \"https://github.com/x/g\"\nrev = \"r\"\npath = \"sub\"\n",
                ),
            ),
            (
                "b",
                grammars_checkout(
                    "b",
                    "[grammars.g]\nrepository = \"https://github.com/x/g/sub\"\nrev = \"r\"\n",
                ),
            ),
        ]),
    );
    assert!(!report.contains("Grammars provided by multiple extensions:"));
    assert!(!report.contains("Grammar:"));
}

#[test]
fn shared_source_with_a_path_is_shown_with_the_path() {
    let index = index_grammars(&vec![
        (source("https://github.com/x/g", Some("sub")), text("a")),
        (source("https://github.com/x/g", Some("sub")), text("b")),
    ]);
    assert_eq!(
        render_duplicates(&index),
        "Grammars provided by multiple extensions:\nGrammar: https://github.com/x/g/sub\n  - a\n  - b\n"
    );
}

#[test]
fn grammar_survey_reads_the_legacy_manifest() {
    let legacy = Checkout {
        manifest_toml: None,
        manifest_json: manifest_json(
            "e",
            ", \"grammars\": {\"g\": {\"repository\": \"r\", \"rev\": \"v\"}}",
        ),
        themes: None,
    };
    let primary = grammars_checkout("f", "[grammars.h]\nrepository = \"r.git\"\nrev = \"w\"\n");
    let report =
        TreeSitterGrammars.run(&registry(&["e", "f"]), &tree(vec![("e", legacy), ("f", primary)]));
    assert_eq!(
        report,
        "- e\n  - g\n    - Repo: r\n    - Rev: v\n- f\n  - h\n    - Repo: r.git\n    - Rev: w\n\nGrammars provided by multiple extensions:\nGrammar: r\n  - e\n  - f\n"
    );
}

#[test]
fn grammar_survey_prefers_the_primary_manifest() {
    let both = Checkout {
        manifest_toml: manifest_toml("e", "[grammars.p]\nrepository = \"r\"\nrev = \"1\"\n"),
        manifest_json: manifest_json(
            "e",
            ", \"grammars\": {\"l\": {\"repository\": \"r\", \"rev\": \"2\"}}",
        ),
        themes: None,
    };
    assert_eq!(
        TreeSitterGrammars.render("e", &TreeSitterGrammars.survey(&both)),
        "- e\n  - p\n    - Repo: r\n    - Rev: 1\n"
    );
}

#[test]
fn unparseable_legacy_manifest_stays_in_the_listing() {
    let broken = Checkout { manifest_toml: None, manifest_json: Some(text("{")), themes: None };
    let valid = Checkout {
        manifest_toml: None,
        manifest_json: manifest_json("g", ", \"repository\": \"https://github.com/x/g\""),
        themes: None,
    };
    let report =
        ExtensionJsonUsage.run(&registry(&["e", "g"]), &tree(vec![("e", broken), ("g", valid)]));
    let link = create_github_issue_url(
        "https://github.com/x/g",
        "Migrate to `extension.toml`",
        MIGRATION_BODY,
    )
    .unwrap();
    assert!(report.starts_with(
        "## Extensions using `extension.json`\n- [ ] `e`\n???\n  - Issue: \n    - Failed to load extension manifest: "
    ));
    assert!(report.ends_with(&format!(
        "\n- [ ] `g`\n  - Repository URL: [https://github.com/x/g](https://github.com/x/g)\n  - Issue: \n    - [Create Issue]({link})\n\n"
    )));
    assert_eq!(report.matches("Create Issue").count(), 1);
    assert_eq!(report.matches("Failed to load").count(), 1);
}

#[test]
fn registry_that_does_not_ascend_is_told_apart() {
    let mut registry = ExtensionsToml::new();
    assert!(registry.is_well_formed());
    registry.insert(text("b"), extension_survey::extensions::ExtensionEntry {
        submodule: text("b"),
        version: text(""),
        path: None,
    });
    registry.insert(text("a"), extension_survey::extensions::ExtensionEntry {
        submodule: text("a"),
        version: text(""),
        path: None,
    });
    assert!(registry.is_well_formed());
    registry.extensions.swap(0, 1);
    assert!(!registry.is_well_formed());
    registry.extensions[0].0 = text("a");
    assert!(!registry.is_well_formed());
}

#[test]
fn checkout_is_found_by_identifier() {
    let first = Checkout { manifest_toml: Some(text("1")), manifest_json: None, themes: None };
    let second = Checkout { manifest_toml: Some(text("2")), manifest_json: None, themes: None };
    let tree = tree(vec![("a", first.clone()), ("b", second.clone()), ("a", second.clone())]);
    assert_eq!(tree.checkout(&text("a")), Some(&first));
    assert_eq!(tree.checkout(&text("b")), Some(&second));
    assert_eq!(tree.checkout(&text("c")), None);
}
