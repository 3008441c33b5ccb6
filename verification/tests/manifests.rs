use extension_survey::document::{Doc, Number};
use extension_survey::extension::{
    ContextServerManifestEntry, ExtensionCapability, ExtensionLibraryKind, ExtensionManifest,
    GrammarManifestEntry, IndexedDocsProviderEntry, LibManifestEntry, SchemaVersion,
    SlashCommandManifestEntry,
};
use extension_survey::extensions::{ExtensionsToml, RegistryLoadError};
use extension_survey::manifest::{load_manifest, parse_manifest, ManifestError, ManifestFormat};
use extension_survey::shape::ShapeError;
use extension_survey::syntax::parse_toml;

const MINIMAL: &str = "id = \"a\"\nname = \"A\"\nversion = \"0.1.0\"\nschema_version = 1\n";

fn text(s: &str) -> String {
    s.to_string()
}

fn shape_error(source: &str) -> ShapeError {
    ExtensionManifest::from_doc(&parse_toml(source).unwrap()).unwrap_err()
}

fn parse_error(format: ManifestFormat, source: &str) -> String {
    match parse_manifest(format, source) {
        Err(ManifestError::Parse(message)) => message,
        other => panic!("expected a parse error, got {:?}", other),
    }
}

#[test]
fn minimal_manifest_has_the_defaults() {
    let manifest = parse_manifest(ManifestFormat::Toml, MINIMAL).unwrap();
    assert_eq!(manifest.id, "a");
    assert_eq!(manifest.name, "A");
    assert_eq!(manifest.version, "0.1.0");
    assert_eq!(manifest.schema_version, SchemaVersion(1));
    assert_eq!(manifest.description, None);
    assert_eq!(manifest.repository, None);
    assert!(manifest.authors.is_empty());
    assert_eq!(manifest.lib, LibManifestEntry { kind: None, version: None });
    assert!(manifest.themes.is_empty());
    assert!(manifest.icon_themes.is_empty());
    assert!(manifest.languages.is_empty());
    assert!(manifest.grammars.is_empty());
    assert!(manifest.language_servers.is_empty());
    assert!(manifest.context_servers.is_empty());
    assert!(manifest.slash_commands.is_empty());
    assert!(manifest.indexed_docs_providers.is_empty());
    assert_eq!(manifest.snippets, None);
    assert!(manifest.capabilities.is_empty());
}

#[test]
fn full_manifest_is_read_field_by_field() {
    let source = "id = \"a\"\nname = \"A\"\nversion = \"0.1.0\"\nschema_version = 1\n\
description = \"An extension\"\nrepository = \"https://github.com/x/y\"\n\
authors = [\"One <one@example.com>\", \"Two\"]\nthemes = [\"themes/t.json\"]\n\
icon_themes = [\"icons/i.json\"]\nlanguages = [\"languages/l\"]\nsnippets = \"snippets.json\"\n\
unknown = 3\n\
[lib]\nkind = \"Rust\"\nversion = \"0.2.0\"\n\
[grammars.g]\nrepository = \"https://github.com/x/g\"\ncommit = \"abc\"\npath = \"sub\"\n\
[grammars.h]\nrepository = \"https://github.com/x/h.git\"\nrev = \"def\"\n\
[language_servers.s]\nlanguage = \"L\"\nlanguages = [\"L\", \"M\"]\n\
[language_servers.s.language_ids]\nL = \"l\"\n\
[context_servers.c]\n\
[slash_commands.d]\ndescription = \"does\"\nrequires_argument = true\n\
[indexed_docs_providers.p]\n\
[[capabilities]]\nkind = \"process:exec\"\ncommand = \"ls\"\nargs = [\"*\", \"**\"]\n";
    let manifest = parse_manifest(ManifestFormat::Toml, source).unwrap();
    assert_eq!(manifest.description, Some(text("An extension")));
    assert_eq!(manifest.repository, Some(text("https://github.com/x/y")));
    assert_eq!(manifest.authors, vec![text("One <one@example.com>"), text("Two")]);
    assert_eq!(manifest.themes, vec![text("themes/t.json")]);
    assert_eq!(manifest.icon_themes, vec![text("icons/i.json")]);
    assert_eq!(manifest.languages, vec![text("languages/l")]);
    assert_eq!(manifest.snippets, Some(text("snippets.json")));
    assert_eq!(
        manifest.lib,
        LibManifestEntry { kind: Some(ExtensionLibraryKind::Rust), version: Some(text("0.2.0")) }
    );
    assert_eq!(
        manifest.grammars,
        vec![
            (
                text("g"),
                GrammarManifestEntry {
                    repository: text("https://github.com/x/g"),
                    rev: text("abc"),
                    path: Some(text("sub")),
                }
            ),
            (
                text("h"),
                GrammarManifestEntry {
                    repository: text("https://github.com/x/h.git"),
                    rev: text("def"),
                    path: None,
                }
            ),
        ]
    );
    assert_eq!(manifest.language_servers.len(), 1);
    assert_eq!(manifest.language_servers[0].0, "s");
    assert_eq!(manifest.language_servers[0].1.language_ids, vec![(text("L"), text("l"))]);
    assert_eq!(manifest.context_servers, vec![(text("c"), ContextServerManifestEntry {})]);
    assert_eq!(
        manifest.slash_commands,
        vec![(
            text("d"),
            SlashCommandManifestEntry { description: text("does"), requires_argument: true }
        )]
    );
    assert_eq!(manifest.indexed_docs_providers, vec![(text("p"), IndexedDocsProviderEntry {})]);
    assert_eq!(
        manifest.capabilities,
        vec![ExtensionCapability::ProcessExec {
            command: text("ls"),
            args: vec![text("*"), text("**")],
        }]
    );
}

#[test]
fn legacy_manifest_is_read_from_json() {
    let source = "{\n  // legacy\n  \"id\": \"a\",\n  \"name\": \"A\",\n  \"version\": \"0.1.0\",\n  \
\"schema_version\": 0,\n  \"repository\": null,\n  \"description\": \"d\",\n}";
    let manifest = parse_manifest(ManifestFormat::Json, source).unwrap();
    assert_eq!(manifest.id, "a");
    assert_eq!(manifest.schema_version, SchemaVersion(0));
    assert_eq!(manifest.repository, None);
    assert_eq!(manifest.description, Some(text("d")));
}

#[test]
fn manifest_that_is_no_table_is_rejected() {
    let error = ExtensionManifest::from_doc(&Doc::List(Vec::new())).unwrap_err();
    assert_eq!(error, ShapeError::NotATable);
    assert_eq!(error.message(), "expected a table");
    assert_eq!(parse_error(ManifestFormat::Json, "[1, 2]"), "expected a table");
}

#[test]
fn manifest_without_a_required_field_is_rejected() {
    let error = shape_error("name = \"A\"\nversion = \"0.1.0\"\nschema_version = 1\n");
    assert_eq!(error, ShapeError::Missing(text("id")));
    assert_eq!(error.message(), "missing field `id`");
    assert_eq!(
        shape_error("id = \"a\"\nversion = \"0.1.0\"\nschema_version = 1\n"),
        ShapeError::Missing(text("name"))
    );
    assert_eq!(
        shape_error("id = \"a\"\nname = \"A\"\nschema_version = 1\n"),
        ShapeError::Missing(text("version"))
    );
    assert_eq!(
        shape_error("id = \"a\"\nname = \"A\"\nversion = \"0.1.0\"\n"),
        ShapeError::Missing(text("schema_version"))
    );
}

#[test]
fn manifest_with_a_field_of_another_type_is_rejected() {
    let error = shape_error("id = 1\nname = \"A\"\nversion = \"0.1.0\"\nschema_version = 1\n");
    assert_eq!(error, ShapeError::Mismatch(text("id")));
    assert_eq!(error.message(), "invalid type for field `id`");
    assert_eq!(
        shape_error(&format!("{MINIMAL}repository = 3\n")),
        ShapeError::Mismatch(text("repository"))
    );
    assert_eq!(
        shape_error(&format!("{MINIMAL}authors = [\"a\", 2]\n")),
        ShapeError::Mismatch(text("authors"))
    );
    assert_eq!(
        shape_error(&format!("{MINIMAL}authors = \"a\"\n")),
        ShapeError::Mismatch(text("authors"))
    );
    assert_eq!(
        shape_error(&format!("{MINIMAL}grammars = []\n")),
        ShapeError::Mismatch(text("grammars"))
    );
    assert_eq!(
        shape_error(&format!("{MINIMAL}[lib]\nkind = \"Go\"\n")),
        ShapeError::Mismatch(text("kind"))
    );
}

#[test]
fn first_field_at_fault_decides_the_error() {
    assert_eq!(
        shape_error("id = 1\nversion = \"0.1.0\"\nschema_version = \"x\"\n"),
        ShapeError::Mismatch(text("id"))
    );
    assert_eq!(
        shape_error(&format!("{MINIMAL}snippets = 1\nauthors = 2\n")),
        ShapeError::Mismatch(text("authors"))
    );
}

#[test]
fn schema_version_fits_in_32_bits() {
    let manifest = |version: &str| {
        let source =
            format!("id = \"a\"\nname = \"A\"\nversion = \"0.1.0\"\nschema_version = {version}\n");
        ExtensionManifest::from_doc(&parse_toml(&source).unwrap())
    };
    assert_eq!(manifest("2147483647").unwrap().schema_version, SchemaVersion(i32::MAX));
    assert_eq!(manifest("-2147483648").unwrap().schema_version, SchemaVersion(i32::MIN));
    assert_eq!(manifest("2147483648").unwrap_err(), ShapeError::Mismatch(text("schema_version")));
    assert_eq!(manifest("-2147483649").unwrap_err(), ShapeError::Mismatch(text("schema_version")));
    assert_eq!(manifest("1.0").unwrap_err(), ShapeError::Mismatch(text("schema_version")));
}

#[test]
fn grammar_needs_a_repository_and_a_revision() {
    assert_eq!(
        shape_error(&format!("{MINIMAL}[grammars.g]\nrev = \"abc\"\n")),
        ShapeError::Missing(text("repository"))
    );
    assert_eq!(
        shape_error(&format!("{MINIMAL}[grammars.g]\nrepository = \"r\"\n")),
        ShapeError::Missing(text("rev"))
    );
    assert_eq!(
        shape_error(&format!("{MINIMAL}[grammars.g]\nrepository = \"r\"\ncommit = 1\n")),
        ShapeError::Mismatch(text("commit"))
    );
    assert_eq!(
        shape_error(&format!("{MINIMAL}[grammars]\ng = \"r\"\n")),
        ShapeError::Mismatch(text("g"))
    );
}

#[test]
fn grammar_with_both_rev_and_commit_is_refused() {
    let error = shape_error(&format!(
        "{MINIMAL}[grammars.g]\nrepository = \"r\"\nrev = \"one\"\ncommit = \"two\"\n"
    ));
    assert_eq!(error, ShapeError::Duplicate(text("rev")));
    assert_eq!(error.message(), "duplicate field `rev`");
}

#[test]
fn capability_needs_its_kind_command_and_args() {
    let with = |body: &str| shape_error(&format!("{MINIMAL}[[capabilities]]\n{body}"));
    assert_eq!(with("command = \"ls\"\nargs = []\n"), ShapeError::Missing(text("kind")));
    assert_eq!(
        with("kind = \"other\"\ncommand = \"ls\"\nargs = []\n"),
        ShapeError::Mismatch(text("kind"))
    );
    assert_eq!(with("kind = \"process:exec\"\nargs = []\n"), ShapeError::Missing(text("command")));
    assert_eq!(
        with("kind = \"process:exec\"\ncommand = \"ls\"\n"),
        ShapeError::Missing(text("args"))
    );
    assert_eq!(
        shape_error(&format!("{MINIMAL}capabilities = [1]\n")),
        ShapeError::Mismatch(text("capabilities"))
    );
}

#[test]
fn slash_command_needs_its_fields() {
    assert_eq!(
        shape_error(&format!("{MINIMAL}[slash_commands.d]\ndescription = \"does\"\n")),
        ShapeError::Missing(text("requires_argument"))
    );
    assert_eq!(
        shape_error(&format!(
            "{MINIMAL}[slash_commands.d]\ndescription = \"does\"\nrequires_argument = 1\n"
        )),
        ShapeError::Mismatch(text("requires_argument"))
    );
}

#[test]
fn syntax_error_is_a_parse_error() {
    let message = parse_error(ManifestFormat::Toml, "id = ");
    assert!(!message.is_empty());
    let message = parse_error(ManifestFormat::Json, "{");
    assert!(!message.is_empty());
}

#[test]
fn primary_manifest_is_loaded_first() {
    let primary = Some(text(MINIMAL));
    let legacy = Some(text("{\"id\": \"b\", \"name\": \"B\", \"version\": \"1\", \"schema_version\": 0}"));
    assert_eq!(load_manifest(&primary, &legacy).unwrap().id, "a");
    assert_eq!(load_manifest(&primary, &None).unwrap().id, "a");
}

#[test]
fn legacy_manifest_is_loaded_where_the_primary_is_absent() {
    let legacy = Some(text("{\"id\": \"b\", \"name\": \"B\", \"version\": \"1\", \"schema_version\": 0}"));
    assert_eq!(load_manifest(&None, &legacy).unwrap().id, "b");
}

#[test]
fn no_manifest_is_not_found() {
    let error = load_manifest(&None, &None).unwrap_err();
    assert_eq!(error, ManifestError::NotFound);
    assert_eq!(error.message(), "no extension manifest found");
}

#[test]
fn malformed_primary_manifest_does_not_fall_back() {
    let legacy = Some(text("{\"id\": \"b\", \"name\": \"B\", \"version\": \"1\", \"schema_version\": 0}"));
    let error = load_manifest(&Some(text("id = 1")), &legacy).unwrap_err();
    assert_eq!(error, ManifestError::Parse(text("invalid type for field `id`")));
    assert_eq!(error.message(), "invalid type for field `id`");
}

#[test]
fn registry_is_read_in_key_order() {
    let source = "[b]\nsubmodule = \"extensions/b\"\nversion = \"0.2.0\"\npath = \"sub\"\n\
[a]\nsubmodule = \"extensions/a\"\nversion = \"0.1.0\"\n";
    let registry = ExtensionsToml::parse(source).unwrap();
    assert_eq!(registry.extensions.len(), 2);
    assert_eq!(registry.extensions[0].0, "a");
    assert_eq!(registry.extensions[0].1.submodule, "extensions/a");
    assert_eq!(registry.extensions[0].1.version, "0.1.0");
    assert_eq!(registry.extensions[0].1.path, None);
    assert_eq!(registry.extensions[1].0, "b");
    assert_eq!(registry.extensions[1].1.path, Some(text("sub")));
}

#[test]
fn empty_registry_has_no_extension() {
    assert!(ExtensionsToml::parse("").unwrap().extensions.is_empty());
}

#[test]
fn registry_that_is_no_toml_is_rejected() {
    match ExtensionsToml::parse("[a") {
        Err(RegistryLoadError::Syntax(message)) => assert!(!message.is_empty()),
        other => panic!("expected a syntax error, got {:?}", other),
    }
}

#[test]
fn registry_entry_without_a_submodule_is_rejected() {
    match ExtensionsToml::parse("[a]\nversion = \"0.1.0\"\n") {
        Err(RegistryLoadError::Shape(error)) => {
            assert_eq!(error, ShapeError::Missing(text("submodule")));
        }
        other => panic!("expected a shape error, got {:?}", other),
    }
    let error = ExtensionsToml::parse("a = 1\n").unwrap_err();
    assert_eq!(error.message(), "invalid type for field `a`");
    let error = ExtensionsToml::from_doc(&Doc::Number(Number::Integer(1))).unwrap_err();
    assert_eq!(error, ShapeError::NotATable);
}

fn entry(submodule: &str) -> extension_survey::extensions::ExtensionEntry {
    extension_survey::extensions::ExtensionEntry {
        submodule: text(submodule),
        version: text("0.0.1"),
        path: None,
    }
}

fn entry_doc(submodule: &str) -> Doc {
    Doc::Table(vec![
        (text("submodule"), Doc::Text(text(submodule))),
        (text("version"), Doc::Text(text("0.0.1"))),
    ])
}

#[test]
fn registry_keeps_its_entries_in_the_order_of_the_identifiers() {
    let doc = Doc::Table(vec![
        (text("b"), entry_doc("1")),
        (text("a"), entry_doc("2")),
        (text("é"), entry_doc("3")),
        (text("B"), entry_doc("4")),
        (text("ab"), entry_doc("5")),
        (text(""), entry_doc("6")),
    ]);
    let registry = ExtensionsToml::from_doc(&doc).unwrap();
    let order: Vec<(&str, &str)> = registry
        .extensions
        .iter()
        .map(|(id, entry)| (id.as_str(), entry.submodule.as_str()))
        .collect();
    assert_eq!(order, vec![("", "6"), ("B", "4"), ("a", "2"), ("ab", "5"), ("b", "1"), ("é", "3")]);
}

#[test]
fn later_entry_of_an_identifier_takes_the_place_of_the_earlier() {
    let doc = Doc::Table(vec![
        (text("b"), entry_doc("1")),
        (text("a"), entry_doc("2")),
        (text("b"), entry_doc("3")),
    ]);
    let registry = ExtensionsToml::from_doc(&doc).unwrap();
    assert_eq!(registry.extensions.len(), 2);
    assert_eq!(registry.extensions[0].0, "a");
    assert_eq!(registry.extensions[1].0, "b");
    assert_eq!(registry.extensions[1].1.submodule, "3");
}

#[test]
fn registry_is_built_by_insertion() {
    let mut registry = ExtensionsToml::new();
    assert!(registry.extensions.is_empty());
    registry.insert(text("m"), entry("1"));
    registry.insert(text("z"), entry("2"));
    registry.insert(text("a"), entry("3"));
    registry.insert(text("m"), entry("4"));
    let order: Vec<(&str, &str)> = registry
        .extensions
        .iter()
        .map(|(id, entry)| (id.as_str(), entry.submodule.as_str()))
        .collect();
    assert_eq!(order, vec![("a", "3"), ("m", "4"), ("z", "2")]);
}

#[test]
fn grammars_are_kept_in_the_order_of_their_names() {
    let grammar = |rev: &str| {
        Doc::Table(vec![
            (text("repository"), Doc::Text(text("r"))),
            (text("rev"), Doc::Text(text(rev))),
        ])
    };
    let doc = Doc::Table(vec![
        (text("id"), Doc::Text(text("a"))),
        (text("name"), Doc::Text(text("A"))),
        (text("version"), Doc::Text(text("1"))),
        (text("schema_version"), Doc::Number(Number::Integer(1))),
        (
            text("grammars"),
            Doc::Table(vec![(text("y"), grammar("1")), (text("x"), grammar("2"))]),
        ),
    ]);
    let manifest = ExtensionManifest::from_doc(&doc).unwrap();
    let names: Vec<&str> = manifest.grammars.iter().map(|(name, _)| name.as_str()).collect();
    assert_eq!(names, vec!["x", "y"]);
}

#[test]
fn registry_entry_may_name_its_location_and_override_path() {
    let registry =
        ExtensionsToml::parse("[a]\nlocation = \"extensions/a\"\noverride_path = \"sub\"\n")
            .unwrap();
    assert_eq!(registry.extensions[0].1.submodule, "extensions/a");
    assert_eq!(registry.extensions[0].1.version, "");
    assert_eq!(registry.extensions[0].1.path, Some(text("sub")));
    assert_eq!(registry.extensions[0].1.extension_dir("work"), "work/extensions/a/sub");
}

#[test]
fn registry_entry_prefers_submodule_and_path() {
    let registry = ExtensionsToml::parse(
        "[a]\nsubmodule = \"one\"\nlocation = \"two\"\npath = \"p\"\noverride_path = \"q\"\nversion = \"1\"\n",
    )
    .unwrap();
    assert_eq!(registry.extensions[0].1.submodule, "one");
    assert_eq!(registry.extensions[0].1.path, Some(text("p")));
    assert_eq!(registry.extensions[0].1.version, "1");
}

#[test]
fn registry_entry_with_a_field_of_another_type_is_rejected() {
    let shape = |source: &str| match ExtensionsToml::parse(source) {
        Err(RegistryLoadError::Shape(error)) => error,
        other => panic!("expected a shape error, got {:?}", other),
    };
    assert_eq!(shape("[a]\nlocation = 1\n"), ShapeError::Mismatch(text("location")));
    assert_eq!(shape("[a]\nsubmodule = \"s\"\nversion = 1\n"), ShapeError::Mismatch(text("version")));
    assert_eq!(
        shape("[a]\nsubmodule = \"s\"\noverride_path = []\n"),
        ShapeError::Mismatch(text("override_path"))
    );
}

#[test]
fn default_entries_are_empty() {
    assert_eq!(LibManifestEntry::default(), LibManifestEntry { kind: None, version: None });
    assert_eq!(
        GrammarManifestEntry::default(),
        GrammarManifestEntry { repository: text(""), rev: text(""), path: None }
    );
    assert!(SchemaVersion(0) < SchemaVersion(1));
}
