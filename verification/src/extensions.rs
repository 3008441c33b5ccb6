//! The registry index: every extension under survey, with the place of its
//! checkout in the working tree.

use crate::document::{Doc, DocView};
use crate::order::{ascending, is_ascending, put, put_record};
use crate::extension::opt_view;
use crate::shape::{
    either, named_views, opt_text_at, pick, read_entries, read_opt_text, read_text,
    records_of, text_at, Record, ShapeError, ShapeErrorView,
};
use crate::syntax::{parse_toml, toml_document};
use crate::text::{join_path, joined};
use vstd::prelude::*;
use vstd::string::*;

verus! {

/// The registry index, in the order in which the surveys walk it: in a
/// well-formed registry the identifiers ascend, so none occurs twice.
#[derive(Debug)]
pub struct ExtensionsToml {
    pub extensions: Vec<(String, ExtensionEntry)>,
}

/// Where the checkout of one extension lies.
#[derive(Debug)]
pub struct ExtensionEntry {
    pub submodule: String,
    pub version: String,
    pub path: Option<String>,
}

pub ghost struct ExtensionEntryView {
    pub submodule: Seq<char>,
    pub version: Seq<char>,
    pub path: Option<Seq<char>>,
}

impl View for ExtensionEntry {
    type V = ExtensionEntryView;

    open spec fn view(&self) -> ExtensionEntryView {
        ExtensionEntryView {
            submodule: self.submodule@,
            version: self.version@,
            path: opt_view(self.path),
        }
    }
}

impl View for ExtensionsToml {
    type V = Seq<(Seq<char>, ExtensionEntryView)>;

    open spec fn view(&self) -> Seq<(Seq<char>, ExtensionEntryView)> {
        named_views(self.extensions@)
    }
}

impl ExtensionEntryView {
    /// The directory of the extension under `root_dir`: the submodule, and
    /// below it the path where the entry has one.
    pub open spec fn extension_dir(self, root_dir: Seq<char>) -> Seq<char> {
        match self.path {
            Some(path) => joined(joined(root_dir, self.submodule), path),
            None => joined(root_dir, self.submodule),
        }
    }
}

impl ExtensionEntry {
    /// Returns the path to the extension directory for this [`ExtensionEntry`].
    pub fn extension_dir(&self, root_dir: &str) -> (r: String)
        ensures
            r@ == self@.extension_dir(root_dir@),
    {
        let extension_dir = join_path(root_dir, self.submodule.as_str());
        match &self.path {
            Some(path) => join_path(extension_dir.as_str(), path.as_str()),
            None => extension_dir,
        }
    }
}

/// The location of a checkout: under `submodule`, or else under `location`.
pub open spec fn location_at(table: DocView) -> Result<Seq<char>, ShapeErrorView> {
    text_at(table, either(table, "submodule"@, "location"@))
}

/// The sub-path of a checkout: under `path`, or else under `override_path`.
pub open spec fn sub_path_at(table: DocView) -> Result<Option<Seq<char>>, ShapeErrorView> {
    opt_text_at(table, either(table, "path"@, "override_path"@))
}

/// An entry of the registry is a table with the location of the checkout
/// under `submodule`, or else under `location`; optionally a sub-path under
/// `path`, or else under `override_path`; and optionally a `version`, which
/// is empty where the key is absent.
impl Record for ExtensionEntry {
    open spec fn decode(name: Seq<char>, doc: DocView) -> Result<
        ExtensionEntryView,
        ShapeErrorView,
    > {
        if !(doc is Table) {
            Err(ShapeErrorView::Mismatch(name))
        } else if location_at(doc) is Err {
            Err(location_at(doc)->Err_0)
        } else if opt_text_at(doc, "version"@) is Err {
            Err(opt_text_at(doc, "version"@)->Err_0)
        } else if sub_path_at(doc) is Err {
            Err(sub_path_at(doc)->Err_0)
        } else {
            Ok(
                ExtensionEntryView {
                    submodule: location_at(doc)->Ok_0,
                    version: match opt_text_at(doc, "version"@)->Ok_0 {
                        Some(version) => version,
                        None => Seq::empty(),
                    },
                    path: sub_path_at(doc)->Ok_0,
                },
            )
        }
    }

    fn read(name: &String, doc: &Doc) -> (r: Result<ExtensionEntry, ShapeError>) {
        if doc.as_table().is_none() {
            return Err(ShapeError::Mismatch(name.clone()));
        }
        let submodule = read_text(doc, pick(doc, "submodule", "location"))?;
        let version = match read_opt_text(doc, "version")? {
            Some(version) => version,
            None => String::new(),
        };
        let path = read_opt_text(doc, pick(doc, "path", "override_path"))?;
        Ok(ExtensionEntry { submodule, version, path })
    }
}

/// Why the registry index could not be loaded.
#[derive(Debug)]
pub enum RegistryLoadError {
    /// The text is no TOML. Holds the message of the rejection.
    Syntax(String),
    /// The document has not the structure of a registry.
    Shape(ShapeError),
}

/// The mathematical value of a [`RegistryLoadError`].
pub ghost enum RegistryLoadErrorView {
    Syntax(Seq<char>),
    Shape(ShapeErrorView),
}

impl View for RegistryLoadError {
    type V = RegistryLoadErrorView;

    open spec fn view(&self) -> RegistryLoadErrorView {
        match self {
            RegistryLoadError::Syntax(message) => RegistryLoadErrorView::Syntax(message@),
            RegistryLoadError::Shape(e) => RegistryLoadErrorView::Shape(e@),
        }
    }
}

impl RegistryLoadError {
    /// The error in words.
    pub fn message(&self) -> (r: String)
        ensures
            r@ == match self@ {
                RegistryLoadErrorView::Syntax(message) => message,
                RegistryLoadErrorView::Shape(e) => e.message(),
            },
    {
        match self {
            RegistryLoadError::Syntax(message) => message.clone(),
            RegistryLoadError::Shape(e) => e.message(),
        }
    }
}

impl ExtensionsToml {
    /// The identifiers ascend.
    pub open spec fn wf(&self) -> bool {
        ascending(self@)
    }

    /// Whether the registry is well formed.
    pub fn is_well_formed(&self) -> (r: bool)
        ensures
            r == self.wf(),
    {
        is_ascending(&self.extensions)
    }

    /// A registry without extensions.
    pub fn new() -> (r: ExtensionsToml)
        ensures
            r@ == Seq::<(Seq<char>, ExtensionEntryView)>::empty(),
            r.wf(),
    {
        let extensions: Vec<(String, ExtensionEntry)> = Vec::new();
        assert(named_views(extensions@) == Seq::<(Seq<char>, ExtensionEntryView)>::empty());
        ExtensionsToml { extensions }
    }

    /// Puts an extension into the registry, in the place of the entry with
    /// the same identifier where there is one.
    pub fn insert(&mut self, id: String, entry: ExtensionEntry)
        requires
            old(self).wf(),
        ensures
            final(self)@ == put(old(self)@, id@, entry@),
            final(self).wf(),
    {
        put_record(&mut self.extensions, id, entry);
    }

    /// The registry that a document denotes: a table that holds one entry
    /// under the identifier of each extension. The registry keeps the
    /// entries in the order of the identifiers.
    pub open spec fn decode(doc: DocView) -> Result<
        Seq<(Seq<char>, ExtensionEntryView)>,
        ShapeErrorView,
    > {
        records_of::<ExtensionEntry>(doc)
    }

    /// The registry that a text denotes.
    pub open spec fn parsed(text: Seq<char>) -> Result<
        Seq<(Seq<char>, ExtensionEntryView)>,
        RegistryLoadErrorView,
    > {
        match toml_document(text) {
            Err(message) => Err(RegistryLoadErrorView::Syntax(message)),
            Ok(doc) => match Self::decode(doc) {
                Ok(extensions) => Ok(extensions),
                Err(e) => Err(RegistryLoadErrorView::Shape(e)),
            },
        }
    }

    /// Reads the registry from a document.
    pub fn from_doc(doc: &Doc) -> (r: Result<ExtensionsToml, ShapeError>)
        ensures
            match r {
                Ok(registry) => Self::decode(doc@) == Ok::<
                    Seq<(Seq<char>, ExtensionEntryView)>,
                    ShapeErrorView,
                >(registry@) && registry.wf(),
                Err(e) => Self::decode(doc@) == Err::<
                    Seq<(Seq<char>, ExtensionEntryView)>,
                    ShapeErrorView,
                >(e@),
            },
    {
        match doc.as_table() {
            None => Err(ShapeError::NotATable),
            Some(entries) => {
                let extensions = read_entries::<ExtensionEntry>(entries)?;
                Ok(ExtensionsToml { extensions })
            },
        }
    }

    /// Reads the registry from the text of `extensions.toml`.
    pub fn parse(text: &str) -> (r: Result<ExtensionsToml, RegistryLoadError>)
        ensures
            match r {
                Ok(registry) => Self::parsed(text@) == Ok::<
                    Seq<(Seq<char>, ExtensionEntryView)>,
                    RegistryLoadErrorView,
                >(registry@) && registry.wf(),
                Err(e) => Self::parsed(text@) == Err::<
                    Seq<(Seq<char>, ExtensionEntryView)>,
                    RegistryLoadErrorView,
                >(e@),
            },
    {
        match parse_toml(text) {
            Err(message) => Err(RegistryLoadError::Syntax(message)),
            Ok(doc) => match Self::from_doc(&doc) {
                Ok(registry) => Ok(registry),
                Err(e) => Err(RegistryLoadError::Shape(e)),
            },
        }
    }
}

} // verus!
