//! Loading the manifest of one extension: the primary format first, the
//! legacy format where the primary manifest is absent.

use crate::document::DocView;
use crate::extension::{opt_view, ExtensionManifest, ExtensionManifestView};
use crate::syntax::{json_document, parse_json, parse_toml, toml_document};
use vstd::prelude::*;
use vstd::string::*;

verus! {

/// The two formats in which a manifest is written.
#[derive(Clone, Copy, Debug, PartialEq, Eq, Structural)]
pub enum ManifestFormat {
    /// The primary format, `extension.toml`.
    Toml,
    /// The legacy format, `extension.json`.
    Json,
}

/// Why no manifest was loaded for an extension.
#[derive(Clone, Debug, PartialEq, Eq)]
pub enum ManifestError {
    /// The extension has a manifest in neither format.
    NotFound,
    /// The manifest is there, but it is no text of its format or has not
    /// the structure of a manifest. Holds the reason in words.
    Parse(String),
}

/// The mathematical value of a [`ManifestError`].
pub ghost enum ManifestErrorView {
    NotFound,
    Parse(Seq<char>),
}

impl View for ManifestError {
    type V = ManifestErrorView;

    open spec fn view(&self) -> ManifestErrorView {
        match self {
            ManifestError::NotFound => ManifestErrorView::NotFound,
            ManifestError::Parse(message) => ManifestErrorView::Parse(message@),
        }
    }
}

impl ManifestErrorView {
    /// The error in words.
    pub open spec fn message(self) -> Seq<char> {
        match self {
            ManifestErrorView::NotFound => "no extension manifest found"@,
            ManifestErrorView::Parse(message) => message,
        }
    }
}

impl ManifestError {
    /// The error in words.
    pub fn message(&self) -> (r: String)
        ensures
            r@ == self@.message(),
    {
        match self {
            ManifestError::NotFound => "no extension manifest found".to_owned(),
            ManifestError::Parse(message) => message.clone(),
        }
    }
}

/// The document that a text denotes in the syntax of a format, or the
/// message with which the text is rejected.
pub open spec fn document_in(format: ManifestFormat, text: Seq<char>) -> Result<
    DocView,
    Seq<char>,
> {
    match format {
        ManifestFormat::Toml => toml_document(text),
        ManifestFormat::Json => json_document(text),
    }
}

/// The manifest that a text in a format denotes. A text that is rejected by
/// the syntax of its format, and a document that has not the structure of a
/// manifest, both give a parse error: no part of a manifest is ever returned.
pub open spec fn parsed_manifest(format: ManifestFormat, text: Seq<char>) -> Result<
    ExtensionManifestView,
    ManifestErrorView,
> {
    match document_in(format, text) {
        Err(message) => Err(ManifestErrorView::Parse(message)),
        Ok(doc) => match ExtensionManifest::decode(doc) {
            Ok(manifest) => Ok(manifest),
            Err(e) => Err(ManifestErrorView::Parse(e.message())),
        },
    }
}

/// The manifest of an extension, given the texts of the manifests that it
/// has. The primary manifest decides where it is there; the legacy manifest
/// is read only where the primary one is absent.
pub open spec fn loaded_manifest(primary: Option<Seq<char>>, legacy: Option<Seq<char>>) -> Result<
    ExtensionManifestView,
    ManifestErrorView,
> {
    match primary {
        Some(text) => parsed_manifest(ManifestFormat::Toml, text),
        None => match legacy {
            Some(text) => parsed_manifest(ManifestFormat::Json, text),
            None => Err(ManifestErrorView::NotFound),
        },
    }
}

/// Reads a manifest from a text in the given format.
pub fn parse_manifest(format: ManifestFormat, text: &str) -> (r: Result<
    ExtensionManifest,
    ManifestError,
>)
    ensures
        match r {
            Ok(manifest) => parsed_manifest(format, text@) == Ok::<
                ExtensionManifestView,
                ManifestErrorView,
            >(manifest@),
            Err(e) => parsed_manifest(format, text@) == Err::<
                ExtensionManifestView,
                ManifestErrorView,
            >(e@),
        },
{
    let parsed = match format {
        ManifestFormat::Toml => parse_toml(text),
        ManifestFormat::Json => parse_json(text),
    };
    match parsed {
        Err(message) => Err(ManifestError::Parse(message)),
        Ok(doc) => match ExtensionManifest::from_doc(&doc) {
            Ok(manifest) => Ok(manifest),
            Err(e) => Err(ManifestError::Parse(e.message())),
        },
    }
}

/// Loads the manifest of an extension from the texts of the manifests that
/// it has: `primary` is the text of `extension.toml`, `legacy` that of
/// `extension.json`, each `None` where the file does not exist.
pub fn load_manifest(primary: &Option<String>, legacy: &Option<String>) -> (r: Result<
    ExtensionManifest,
    ManifestError,
>)
    ensures
        match r {
            Ok(manifest) => loaded_manifest(opt_view(*primary), opt_view(*legacy)) == Ok::<
                ExtensionManifestView,
                ManifestErrorView,
            >(manifest@),
            Err(e) => loaded_manifest(opt_view(*primary), opt_view(*legacy)) == Err::<
                ExtensionManifestView,
                ManifestErrorView,
            >(e@),
        },
{
    match primary {
        Some(text) => parse_manifest(ManifestFormat::Toml, text.as_str()),
        None => match legacy {
            Some(text) => parse_manifest(ManifestFormat::Json, text.as_str()),
            None => Err(ManifestError::NotFound),
        },
    }
}

} // verus!
