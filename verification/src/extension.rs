//! The manifest of an extension, and how it is read from a document.

use crate::document::{lemma_list_view, views, Doc, DocView};
use crate::shape::{
    bool_at, either, i32_at, lemma_try_map_fails, lemma_try_map_step, named_views, opt_text_at,
    pick, read_bool, read_i32, read_opt_text, read_records, read_text, read_texts, records_at,
    text_at, texts_at, try_map, Record, ShapeError, ShapeErrorView,
};
use vstd::prelude::*;
use vstd::string::*;

verus! {

/// The schema version of the [`ExtensionManifest`].
#[derive(Debug, PartialEq, Eq, PartialOrd, Ord, Hash, Clone, Copy, Structural)]
pub struct SchemaVersion(pub i32);

#[derive(Debug, PartialEq, Eq, Clone)]
pub struct ExtensionManifest {
    pub id: String,
    pub name: String,
    pub version: String,
    pub schema_version: SchemaVersion,
    pub description: Option<String>,
    pub repository: Option<String>,
    pub authors: Vec<String>,
    pub lib: LibManifestEntry,
    pub themes: Vec<String>,
    pub icon_themes: Vec<String>,
    pub languages: Vec<String>,
    pub grammars: Vec<(String, GrammarManifestEntry)>,
    pub language_servers: Vec<(String, LanguageServerManifestEntry)>,
    pub context_servers: Vec<(String, ContextServerManifestEntry)>,
    pub slash_commands: Vec<(String, SlashCommandManifestEntry)>,
    pub indexed_docs_providers: Vec<(String, IndexedDocsProviderEntry)>,
    pub snippets: Option<String>,
    pub capabilities: Vec<ExtensionCapability>,
}

/// A capability for an extension.
#[derive(Debug, PartialEq, Eq, Clone)]
pub enum ExtensionCapability {
    ProcessExec {
        /// The command to execute.
        command: String,
        /// The arguments to pass to the command. Use `*` for a single wildcard argument.
        /// If the last element is `**`, then any trailing arguments are allowed.
        args: Vec<String>,
    },
}

#[derive(Clone, PartialEq, Eq, Debug)]
pub struct LibManifestEntry {
    pub kind: Option<ExtensionLibraryKind>,
    pub version: Option<String>,
}

#[derive(Clone, Copy, PartialEq, Eq, Debug, Structural)]
pub enum ExtensionLibraryKind {
    Rust,
}

#[derive(Clone, PartialEq, Eq, Debug)]
pub struct GrammarManifestEntry {
    pub repository: String,
    pub rev: String,
    pub path: Option<String>,
}

#[derive(Clone, PartialEq, Eq, Debug)]
pub struct LanguageServerManifestEntry {
    /// Deprecated in favor of `languages`.
    language: Option<String>,
    /// The list of languages this language server should work with.
    languages: Vec<String>,
    pub language_ids: Vec<(String, String)>,
}

#[derive(Clone, Copy, PartialEq, Eq, Debug, Structural)]
pub struct ContextServerManifestEntry {}

#[derive(Clone, PartialEq, Eq, Debug)]
pub struct SlashCommandManifestEntry {
    pub description: String,
    pub requires_argument: bool,
}

#[derive(Clone, Copy, PartialEq, Eq, Debug, Structural)]
pub struct IndexedDocsProviderEntry {}

impl Default for LibManifestEntry {
    fn default() -> (r: LibManifestEntry)
        ensures
            r.kind is None,
            r.version is None,
    {
        LibManifestEntry { kind: None, version: None }
    }
}

impl Default for GrammarManifestEntry {
    fn default() -> (r: GrammarManifestEntry)
        ensures
            r.repository@ == Seq::<char>::empty(),
            r.rev@ == Seq::<char>::empty(),
            r.path is None,
    {
        GrammarManifestEntry { repository: String::new(), rev: String::new(), path: None }
    }
}

/// The mathematical value of an `Option<String>`.
pub open spec fn opt_view(s: Option<String>) -> Option<Seq<char>> {
    match s {
        Some(s) => Some(s@),
        None => None,
    }
}

pub ghost struct ExtensionManifestView {
    pub id: Seq<char>,
    pub name: Seq<char>,
    pub version: Seq<char>,
    pub schema_version: SchemaVersion,
    pub description: Option<Seq<char>>,
    pub repository: Option<Seq<char>>,
    pub authors: Seq<Seq<char>>,
    pub lib: LibManifestEntryView,
    pub themes: Seq<Seq<char>>,
    pub icon_themes: Seq<Seq<char>>,
    pub languages: Seq<Seq<char>>,
    pub grammars: Seq<(Seq<char>, GrammarManifestEntryView)>,
    pub language_servers: Seq<(Seq<char>, LanguageServerManifestEntryView)>,
    pub context_servers: Seq<(Seq<char>, ContextServerManifestEntry)>,
    pub slash_commands: Seq<(Seq<char>, SlashCommandManifestEntryView)>,
    pub indexed_docs_providers: Seq<(Seq<char>, IndexedDocsProviderEntry)>,
    pub snippets: Option<Seq<char>>,
    pub capabilities: Seq<ExtensionCapabilityView>,
}

pub ghost enum ExtensionCapabilityView {
    ProcessExec { command: Seq<char>, args: Seq<Seq<char>> },
}

pub ghost struct LibManifestEntryView {
    pub kind: Option<ExtensionLibraryKind>,
    pub version: Option<Seq<char>>,
}

pub ghost struct GrammarManifestEntryView {
    pub repository: Seq<char>,
    pub rev: Seq<char>,
    pub path: Option<Seq<char>>,
}

pub ghost struct LanguageServerManifestEntryView {
    pub language: Option<Seq<char>>,
    pub languages: Seq<Seq<char>>,
    pub language_ids: Seq<(Seq<char>, Seq<char>)>,
}

pub ghost struct SlashCommandManifestEntryView {
    pub description: Seq<char>,
    pub requires_argument: bool,
}

/// The views of a sequence of capabilities.
pub open spec fn capability_views(capabilities: Seq<ExtensionCapability>) -> Seq<
    ExtensionCapabilityView,
> {
    Seq::new(capabilities.len(), |i: int| capabilities[i]@)
}

impl View for ExtensionManifest {
    type V = ExtensionManifestView;

    open spec fn view(&self) -> ExtensionManifestView {
        ExtensionManifestView {
            id: self.id@,
            name: self.name@,
            version: self.version@,
            schema_version: self.schema_version,
            description: opt_view(self.description),
            repository: opt_view(self.repository),
            authors: views(self.authors@),
            lib: self.lib@,
            themes: views(self.themes@),
            icon_themes: views(self.icon_themes@),
            languages: views(self.languages@),
            grammars: named_views(self.grammars@),
            language_servers: named_views(self.language_servers@),
            context_servers: named_views(self.context_servers@),
            slash_commands: named_views(self.slash_commands@),
            indexed_docs_providers: named_views(self.indexed_docs_providers@),
            snippets: opt_view(self.snippets),
            capabilities: capability_views(self.capabilities@),
        }
    }
}

impl View for ExtensionCapability {
    type V = ExtensionCapabilityView;

    open spec fn view(&self) -> ExtensionCapabilityView {
        match self {
            ExtensionCapability::ProcessExec { command, args } => {
                ExtensionCapabilityView::ProcessExec { command: command@, args: views(args@) }
            },
        }
    }
}

impl View for LibManifestEntry {
    type V = LibManifestEntryView;

    open spec fn view(&self) -> LibManifestEntryView {
        LibManifestEntryView { kind: self.kind, version: opt_view(self.version) }
    }
}

impl View for GrammarManifestEntry {
    type V = GrammarManifestEntryView;

    open spec fn view(&self) -> GrammarManifestEntryView {
        GrammarManifestEntryView {
            repository: self.repository@,
            rev: self.rev@,
            path: opt_view(self.path),
        }
    }
}

impl View for LanguageServerManifestEntry {
    type V = LanguageServerManifestEntryView;

    closed spec fn view(&self) -> LanguageServerManifestEntryView {
        LanguageServerManifestEntryView {
            language: opt_view(self.language),
            languages: views(self.languages@),
            language_ids: named_views(self.language_ids@),
        }
    }
}

impl View for ContextServerManifestEntry {
    type V = ContextServerManifestEntry;

    open spec fn view(&self) -> ContextServerManifestEntry {
        *self
    }
}

impl View for SlashCommandManifestEntry {
    type V = SlashCommandManifestEntryView;

    open spec fn view(&self) -> SlashCommandManifestEntryView {
        SlashCommandManifestEntryView {
            description: self.description@,
            requires_argument: self.requires_argument,
        }
    }
}

impl View for IndexedDocsProviderEntry {
    type V = IndexedDocsProviderEntry;

    open spec fn view(&self) -> IndexedDocsProviderEntry {
        *self
    }
}

/// The document under `name` as a text.
impl Record for String {
    open spec fn decode(name: Seq<char>, doc: DocView) -> Result<Seq<char>, ShapeErrorView> {
        match doc {
            DocView::Text(s) => Ok(s),
            _ => Err(ShapeErrorView::Mismatch(name)),
        }
    }

    fn read(name: &String, doc: &Doc) -> (r: Result<String, ShapeError>) {
        match doc {
            Doc::Text(s) => Ok(s.clone()),
            _ => Err(ShapeError::Mismatch(name.clone())),
        }
    }
}

/// The revision of a grammar: under `rev`, or else under `commit`. A grammar
/// that has both is refused.
pub open spec fn rev_at(table: DocView) -> Result<Seq<char>, ShapeErrorView> {
    if table.get("rev"@) is Some && table.get("commit"@) is Some {
        Err(ShapeErrorView::Duplicate("rev"@))
    } else {
        text_at(table, either(table, "rev"@, "commit"@))
    }
}

fn read_rev(table: &Doc) -> (r: Result<String, ShapeError>)
    ensures
        match r {
            Ok(s) => rev_at(table@) == Ok::<Seq<char>, ShapeErrorView>(s@),
            Err(e) => rev_at(table@) == Err::<Seq<char>, ShapeErrorView>(e@),
        },
{
    let rev = "rev".to_owned();
    let commit = "commit".to_owned();
    if table.get(&rev).is_some() && table.get(&commit).is_some() {
        return Err(ShapeError::Duplicate(rev));
    }
    read_text(table, pick(table, "rev", "commit"))
}

/// A grammar is a table with a `repository`, a `rev` (or `commit`) and
/// optionally a `path`.
impl Record for GrammarManifestEntry {
    open spec fn decode(name: Seq<char>, doc: DocView) -> Result<
        GrammarManifestEntryView,
        ShapeErrorView,
    > {
        if !(doc is Table) {
            Err(ShapeErrorView::Mismatch(name))
        } else if text_at(doc, "repository"@) is Err {
            Err(text_at(doc, "repository"@)->Err_0)
        } else if rev_at(doc) is Err {
            Err(rev_at(doc)->Err_0)
        } else if opt_text_at(doc, "path"@) is Err {
            Err(opt_text_at(doc, "path"@)->Err_0)
        } else {
            Ok(
                GrammarManifestEntryView {
                    repository: text_at(doc, "repository"@)->Ok_0,
                    rev: rev_at(doc)->Ok_0,
                    path: opt_text_at(doc, "path"@)->Ok_0,
                },
            )
        }
    }

    fn read(name: &String, doc: &Doc) -> (r: Result<GrammarManifestEntry, ShapeError>) {
        if doc.as_table().is_none() {
            return Err(ShapeError::Mismatch(name.clone()));
        }
        let repository = read_text(doc, "repository")?;
        let rev = read_rev(doc)?;
        let path = read_opt_text(doc, "path")?;
        Ok(GrammarManifestEntry { repository, rev, path })
    }
}

/// A language server is a table with optionally a `language`, a list of
/// `languages` and a table of `language_ids`.
impl Record for LanguageServerManifestEntry {
    open spec fn decode(name: Seq<char>, doc: DocView) -> Result<
        LanguageServerManifestEntryView,
        ShapeErrorView,
    > {
        if !(doc is Table) {
            Err(ShapeErrorView::Mismatch(name))
        } else if opt_text_at(doc, "language"@) is Err {
            Err(opt_text_at(doc, "language"@)->Err_0)
        } else if texts_at(doc, "languages"@) is Err {
            Err(texts_at(doc, "languages"@)->Err_0)
        } else if records_at::<String>(doc, "language_ids"@) is Err {
            Err(records_at::<String>(doc, "language_ids"@)->Err_0)
        } else {
            Ok(
                LanguageServerManifestEntryView {
                    language: opt_text_at(doc, "language"@)->Ok_0,
                    languages: texts_at(doc, "languages"@)->Ok_0,
                    language_ids: records_at::<String>(doc, "language_ids"@)->Ok_0,
                },
            )
        }
    }

    fn read(name: &String, doc: &Doc) -> (r: Result<LanguageServerManifestEntry, ShapeError>) {
        if doc.as_table().is_none() {
            return Err(ShapeError::Mismatch(name.clone()));
        }
        let language = read_opt_text(doc, "language")?;
        let languages = read_texts(doc, "languages")?;
        let language_ids = read_records::<String>(doc, "language_ids")?;
        Ok(LanguageServerManifestEntry { language, languages, language_ids })
    }
}

/// A context server is a table, of which nothing is read.
impl Record for ContextServerManifestEntry {
    open spec fn decode(name: Seq<char>, doc: DocView) -> Result<
        ContextServerManifestEntry,
        ShapeErrorView,
    > {
        if doc is Table {
            Ok(ContextServerManifestEntry {  })
        } else {
            Err(ShapeErrorView::Mismatch(name))
        }
    }

    fn read(name: &String, doc: &Doc) -> (r: Result<ContextServerManifestEntry, ShapeError>) {
        if doc.as_table().is_none() {
            return Err(ShapeError::Mismatch(name.clone()));
        }
        Ok(ContextServerManifestEntry {  })
    }
}

/// A slash command is a table with a `description` and the flag
/// `requires_argument`.
impl Record for SlashCommandManifestEntry {
    open spec fn decode(name: Seq<char>, doc: DocView) -> Result<
        SlashCommandManifestEntryView,
        ShapeErrorView,
    > {
        if !(doc is Table) {
            Err(ShapeErrorView::Mismatch(name))
        } else if text_at(doc, "description"@) is Err {
            Err(text_at(doc, "description"@)->Err_0)
        } else if bool_at(doc, "requires_argument"@) is Err {
            Err(bool_at(doc, "requires_argument"@)->Err_0)
        } else {
            Ok(
                SlashCommandManifestEntryView {
                    description: text_at(doc, "description"@)->Ok_0,
                    requires_argument: bool_at(doc, "requires_argument"@)->Ok_0,
                },
            )
        }
    }

    fn read(name: &String, doc: &Doc) -> (r: Result<SlashCommandManifestEntry, ShapeError>) {
        if doc.as_table().is_none() {
            return Err(ShapeError::Mismatch(name.clone()));
        }
        let description = read_text(doc, "description")?;
        let requires_argument = read_bool(doc, "requires_argument")?;
        Ok(SlashCommandManifestEntry { description, requires_argument })
    }
}

/// A provider of indexed docs is a table, of which nothing is read.
impl Record for IndexedDocsProviderEntry {
    open spec fn decode(name: Seq<char>, doc: DocView) -> Result<
        IndexedDocsProviderEntry,
        ShapeErrorView,
    > {
        if doc is Table {
            Ok(IndexedDocsProviderEntry {  })
        } else {
            Err(ShapeErrorView::Mismatch(name))
        }
    }

    fn read(name: &String, doc: &Doc) -> (r: Result<IndexedDocsProviderEntry, ShapeError>) {
        if doc.as_table().is_none() {
            return Err(ShapeError::Mismatch(name.clone()));
        }
        Ok(IndexedDocsProviderEntry {  })
    }
}

/// The kind of library under `kind`: none where the key is absent or holds
/// null; `Rust` is the one kind there is.
pub open spec fn kind_at(table: DocView) -> Result<Option<ExtensionLibraryKind>, ShapeErrorView> {
    match table.get("kind"@) {
        None => Ok(None),
        Some(DocView::Null) => Ok(None),
        Some(DocView::Text(s)) => if s == "Rust"@ {
            Ok(Some(ExtensionLibraryKind::Rust))
        } else {
            Err(ShapeErrorView::Mismatch("kind"@))
        },
        Some(_) => Err(ShapeErrorView::Mismatch("kind"@)),
    }
}

fn read_kind(table: &Doc) -> (r: Result<Option<ExtensionLibraryKind>, ShapeError>)
    ensures
        match r {
            Ok(kind) => kind_at(table@) == Ok::<Option<ExtensionLibraryKind>, ShapeErrorView>(
                kind,
            ),
            Err(e) => kind_at(table@) == Err::<Option<ExtensionLibraryKind>, ShapeErrorView>(e@),
        },
{
    let key = "kind".to_owned();
    match table.get(&key) {
        None => Ok(None),
        Some(Doc::Null) => Ok(None),
        Some(Doc::Text(s)) => {
            let rust = "Rust".to_owned();
            if *s == rust {
                Ok(Some(ExtensionLibraryKind::Rust))
            } else {
                Err(ShapeError::Mismatch(key))
            }
        },
        Some(_) => Err(ShapeError::Mismatch(key)),
    }
}

/// The library entry under `lib`: a table with optionally a `kind` and a
/// `version`; where the key is absent, an entry with neither.
pub open spec fn lib_at(table: DocView) -> Result<LibManifestEntryView, ShapeErrorView> {
    match table.get("lib"@) {
        None => Ok(LibManifestEntryView { kind: None, version: None }),
        Some(lib) => if !(lib is Table) {
            Err(ShapeErrorView::Mismatch("lib"@))
        } else if kind_at(lib) is Err {
            Err(kind_at(lib)->Err_0)
        } else if opt_text_at(lib, "version"@) is Err {
            Err(opt_text_at(lib, "version"@)->Err_0)
        } else {
            Ok(
                LibManifestEntryView {
                    kind: kind_at(lib)->Ok_0,
                    version: opt_text_at(lib, "version"@)->Ok_0,
                },
            )
        },
    }
}

fn read_lib(table: &Doc) -> (r: Result<LibManifestEntry, ShapeError>)
    ensures
        match r {
            Ok(lib) => lib_at(table@) == Ok::<LibManifestEntryView, ShapeErrorView>(lib@),
            Err(e) => lib_at(table@) == Err::<LibManifestEntryView, ShapeErrorView>(e@),
        },
{
    let key = "lib".to_owned();
    match table.get(&key) {
        None => Ok(LibManifestEntry { kind: None, version: None }),
        Some(lib) => {
            if lib.as_table().is_none() {
                return Err(ShapeError::Mismatch(key));
            }
            let kind = read_kind(lib)?;
            let version = read_opt_text(lib, "version")?;
            Ok(LibManifestEntry { kind, version })
        },
    }
}

/// The capability that a document denotes: a table whose `kind` is
/// `process:exec`, with a `command` and a list of `args`.
pub open spec fn capability_of(doc: DocView) -> Result<ExtensionCapabilityView, ShapeErrorView> {
    if !(doc is Table) {
        Err(ShapeErrorView::Mismatch("capabilities"@))
    } else if text_at(doc, "kind"@) is Err {
        Err(text_at(doc, "kind"@)->Err_0)
    } else if text_at(doc, "kind"@)->Ok_0 != "process:exec"@ {
        Err(ShapeErrorView::Mismatch("kind"@))
    } else if text_at(doc, "command"@) is Err {
        Err(text_at(doc, "command"@)->Err_0)
    } else if doc.get("args"@) is None {
        Err(ShapeErrorView::Missing("args"@))
    } else if texts_at(doc, "args"@) is Err {
        Err(texts_at(doc, "args"@)->Err_0)
    } else {
        Ok(
            ExtensionCapabilityView::ProcessExec {
                command: text_at(doc, "command"@)->Ok_0,
                args: texts_at(doc, "args"@)->Ok_0,
            },
        )
    }
}

fn read_capability(doc: &Doc) -> (r: Result<ExtensionCapability, ShapeError>)
    ensures
        match r {
            Ok(c) => capability_of(doc@) == Ok::<ExtensionCapabilityView, ShapeErrorView>(c@),
            Err(e) => capability_of(doc@) == Err::<ExtensionCapabilityView, ShapeErrorView>(e@),
        },
{
    if doc.as_table().is_none() {
        return Err(ShapeError::Mismatch("capabilities".to_owned()));
    }
    let kind = read_text(doc, "kind")?;
    let process_exec = "process:exec".to_owned();
    if kind != process_exec {
        return Err(ShapeError::Mismatch("kind".to_owned()));
    }
    let command = read_text(doc, "command")?;
    let key = "args".to_owned();
    if doc.get(&key).is_none() {
        return Err(ShapeError::Missing(key));
    }
    let args = read_texts(doc, "args")?;
    Ok(ExtensionCapability::ProcessExec { command, args })
}

/// The list of capabilities under `capabilities`: empty where the key is
/// absent.
pub open spec fn capabilities_at(table: DocView) -> Result<
    Seq<ExtensionCapabilityView>,
    ShapeErrorView,
> {
    match table.get("capabilities"@) {
        None => Ok(Seq::empty()),
        Some(DocView::List(items)) => try_map(items, |doc: DocView| capability_of(doc)),
        Some(_) => Err(ShapeErrorView::Mismatch("capabilities"@)),
    }
}

fn read_capabilities(table: &Doc) -> (r: Result<Vec<ExtensionCapability>, ShapeError>)
    ensures
        match r {
            Ok(v) => capabilities_at(table@) == Ok::<
                Seq<ExtensionCapabilityView>,
                ShapeErrorView,
            >(capability_views(v@)),
            Err(e) => capabilities_at(table@) == Err::<
                Seq<ExtensionCapabilityView>,
                ShapeErrorView,
            >(e@),
        },
{
    let key = "capabilities".to_owned();
    match table.get(&key) {
        None => {
            let v: Vec<ExtensionCapability> = Vec::new();
            assert(capability_views(v@) == Seq::<ExtensionCapabilityView>::empty());
            Ok(v)
        },
        Some(Doc::List(items)) => {
            let ghost list = Doc::List(*items)@->List_0;
            let ghost f = |doc: DocView| capability_of(doc);
            proof {
                lemma_list_view(*items);
                assert(list.take(0) == Seq::<DocView>::empty());
            }
            let mut v: Vec<ExtensionCapability> = Vec::new();
            assert(capability_views(v@) == Seq::<ExtensionCapabilityView>::empty());
            let mut i: usize = 0;
            while i < items.len()
                invariant
                    i <= items.len(),
                    f == |doc: DocView| capability_of(doc),
                    table@.get("capabilities"@) == Some(DocView::List(list)),
                    list.len() == items@.len(),
                    forall|k: int| 0 <= k < items@.len() ==> #[trigger] list[k] == items@[k]@,
                    try_map(list.take(i as int), f) == Ok::<
                        Seq<ExtensionCapabilityView>,
                        ShapeErrorView,
                    >(capability_views(v@)),
                decreases items.len() - i,
            {
                proof {
                    lemma_try_map_step(list, f, i as int);
                }
                match read_capability(&items[i]) {
                    Ok(capability) => {
                        let ghost before = capability_views(v@);
                        v.push(capability);
                        assert(capability_views(v@) == before.push(capability@));
                    },
                    Err(e) => {
                        proof {
                            lemma_try_map_fails(list, f, i + 1);
                        }
                        return Err(e);
                    },
                }
                i += 1;
            }
            assert(list.take(i as int) == list);
            Ok(v)
        },
        Some(_) => Err(ShapeError::Mismatch(key)),
    }
}

impl ExtensionManifest {
    /// The manifest that a document denotes. The document is a table. It
    /// holds the texts `id`, `name` and `version` and the whole number
    /// `schema_version`; every other key may be absent. The first key, in the
    /// order of the manifest's fields, whose value has not the type that the
    /// format asks for decides the error.
    pub open spec fn decode(doc: DocView) -> Result<ExtensionManifestView, ShapeErrorView> {
        if !(doc is Table) {
            Err(ShapeErrorView::NotATable)
        } else if text_at(doc, "id"@) is Err {
            Err(text_at(doc, "id"@)->Err_0)
        } else if text_at(doc, "name"@) is Err {
            Err(text_at(doc, "name"@)->Err_0)
        } else if text_at(doc, "version"@) is Err {
            Err(text_at(doc, "version"@)->Err_0)
        } else if i32_at(doc, "schema_version"@) is Err {
            Err(i32_at(doc, "schema_version"@)->Err_0)
        } else if opt_text_at(doc, "description"@) is Err {
            Err(opt_text_at(doc, "description"@)->Err_0)
        } else if opt_text_at(doc, "repository"@) is Err {
            Err(opt_text_at(doc, "repository"@)->Err_0)
        } else if texts_at(doc, "authors"@) is Err {
            Err(texts_at(doc, "authors"@)->Err_0)
        } else if lib_at(doc) is Err {
            Err(lib_at(doc)->Err_0)
        } else if texts_at(doc, "themes"@) is Err {
            Err(texts_at(doc, "themes"@)->Err_0)
        } else if texts_at(doc, "icon_themes"@) is Err {
            Err(texts_at(doc, "icon_themes"@)->Err_0)
        } else if texts_at(doc, "languages"@) is Err {
            Err(texts_at(doc, "languages"@)->Err_0)
        } else if records_at::<GrammarManifestEntry>(doc, "grammars"@) is Err {
            Err(records_at::<GrammarManifestEntry>(doc, "grammars"@)->Err_0)
        } else if records_at::<LanguageServerManifestEntry>(doc, "language_servers"@) is Err {
            Err(records_at::<LanguageServerManifestEntry>(doc, "language_servers"@)->Err_0)
        } else if records_at::<ContextServerManifestEntry>(doc, "context_servers"@) is Err {
            Err(records_at::<ContextServerManifestEntry>(doc, "context_servers"@)->Err_0)
        } else if records_at::<SlashCommandManifestEntry>(doc, "slash_commands"@) is Err {
            Err(records_at::<SlashCommandManifestEntry>(doc, "slash_commands"@)->Err_0)
        } else if records_at::<IndexedDocsProviderEntry>(doc, "indexed_docs_providers"@) is Err {
            Err(records_at::<IndexedDocsProviderEntry>(doc, "indexed_docs_providers"@)->Err_0)
        } else if opt_text_at(doc, "snippets"@) is Err {
            Err(opt_text_at(doc, "snippets"@)->Err_0)
        } else if capabilities_at(doc) is Err {
            Err(capabilities_at(doc)->Err_0)
        } else {
            Ok(
                ExtensionManifestView {
                    id: text_at(doc, "id"@)->Ok_0,
                    name: text_at(doc, "name"@)->Ok_0,
                    version: text_at(doc, "version"@)->Ok_0,
                    schema_version: SchemaVersion(i32_at(doc, "schema_version"@)->Ok_0),
                    description: opt_text_at(doc, "description"@)->Ok_0,
                    repository: opt_text_at(doc, "repository"@)->Ok_0,
                    authors: texts_at(doc, "authors"@)->Ok_0,
                    lib: lib_at(doc)->Ok_0,
                    themes: texts_at(doc, "themes"@)->Ok_0,
                    icon_themes: texts_at(doc, "icon_themes"@)->Ok_0,
                    languages: texts_at(doc, "languages"@)->Ok_0,
                    grammars: records_at::<GrammarManifestEntry>(doc, "grammars"@)->Ok_0,
                    language_servers: records_at::<LanguageServerManifestEntry>(
                        doc,
                        "language_servers"@,
                    )->Ok_0,
                    context_servers: records_at::<ContextServerManifestEntry>(
                        doc,
                        "context_servers"@,
                    )->Ok_0,
                    slash_commands: records_at::<SlashCommandManifestEntry>(
                        doc,
                        "slash_commands"@,
                    )->Ok_0,
                    indexed_docs_providers: records_at::<IndexedDocsProviderEntry>(
                        doc,
                        "indexed_docs_providers"@,
                    )->Ok_0,
                    snippets: opt_text_at(doc, "snippets"@)->Ok_0,
                    capabilities: capabilities_at(doc)->Ok_0,
                },
            )
        }
    }

    /// Reads a manifest from a document: all of it or, where the document
    /// has not the structure of a manifest, the first reason why.
    pub fn from_doc(doc: &Doc) -> (r: Result<ExtensionManifest, ShapeError>)
        ensures
            match r {
                Ok(manifest) => Self::decode(doc@) == Ok::<ExtensionManifestView, ShapeErrorView>(
                    manifest@,
                ),
                Err(e) => Self::decode(doc@) == Err::<ExtensionManifestView, ShapeErrorView>(e@),
            },
    {
        if doc.as_table().is_none() {
            return Err(ShapeError::NotATable);
        }
        let id = read_text(doc, "id")?;
        let name = read_text(doc, "name")?;
        let version = read_text(doc, "version")?;
        let schema_version = SchemaVersion(read_i32(doc, "schema_version")?);
        let description = read_opt_text(doc, "description")?;
        let repository = read_opt_text(doc, "repository")?;
        let authors = read_texts(doc, "authors")?;
        let lib = read_lib(doc)?;
        let themes = read_texts(doc, "themes")?;
        let icon_themes = read_texts(doc, "icon_themes")?;
        let languages = read_texts(doc, "languages")?;
        let grammars = read_records::<GrammarManifestEntry>(doc, "grammars")?;
        let language_servers = read_records::<LanguageServerManifestEntry>(
            doc,
            "language_servers",
        )?;
        let context_servers = read_records::<ContextServerManifestEntry>(doc, "context_servers")?;
        let slash_commands = read_records::<SlashCommandManifestEntry>(doc, "slash_commands")?;
        let indexed_docs_providers = read_records::<IndexedDocsProviderEntry>(
            doc,
            "indexed_docs_providers",
        )?;
        let snippets = read_opt_text(doc, "snippets")?;
        let capabilities = read_capabilities(doc)?;
        Ok(
            ExtensionManifest {
                id,
                name,
                version,
                schema_version,
                description,
                repository,
                authors,
                lib,
                themes,
                icon_themes,
                languages,
                grammars,
                language_servers,
                context_servers,
                slash_commands,
                indexed_docs_providers,
                snippets,
                capabilities,
            },
        )
    }
}

} // verus!
