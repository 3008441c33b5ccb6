//! What every survey works on: the registry index, and for each extension
//! what the working tree holds of it.

use crate::document::lookup;
use crate::extension::opt_view;
use crate::extensions::{ExtensionEntryView, ExtensionsToml};
use crate::github::{IssueLinkError, IssueLinkErrorView};
use crate::manifest::{ManifestError, ManifestErrorView};
use crate::shape::named_views;
use crate::theme::{file_views, ThemeFile, ThemeFileView};
use vstd::prelude::*;
use vstd::string::*;

verus! {

/// What the working tree holds of one extension: the text of each manifest
/// that exists, and the files of the themes directory where there is one.
#[derive(Clone, Debug, PartialEq, Eq)]
pub struct Checkout {
    /// The text of `extension.toml`, where the file exists.
    pub manifest_toml: Option<String>,
    /// The text of `extension.json`, where the file exists.
    pub manifest_json: Option<String>,
    /// The files of the directory `themes`, in the order of its listing,
    /// where the directory exists.
    pub themes: Option<Vec<ThemeFile>>,
}

pub ghost struct CheckoutView {
    pub manifest_toml: Option<Seq<char>>,
    pub manifest_json: Option<Seq<char>>,
    pub themes: Option<Seq<ThemeFileView>>,
}

impl View for Checkout {
    type V = CheckoutView;

    open spec fn view(&self) -> CheckoutView {
        CheckoutView {
            manifest_toml: opt_view(self.manifest_toml),
            manifest_json: opt_view(self.manifest_json),
            themes: match self.themes {
                Some(files) => Some(file_views(files@)),
                None => None,
            },
        }
    }
}

/// The checkouts of the working tree, each under the identifier of its
/// extension. An extension without a checkout has nothing on disk.
#[derive(Clone, Debug, PartialEq, Eq)]
pub struct WorkTree {
    pub checkouts: Vec<(String, Checkout)>,
}

impl View for WorkTree {
    type V = Seq<(Seq<char>, CheckoutView)>;

    open spec fn view(&self) -> Seq<(Seq<char>, CheckoutView)> {
        named_views(self.checkouts@)
    }
}

impl WorkTree {
    /// The checkout of the extension `id`: the first that stands under this
    /// identifier.
    pub fn checkout(&self, id: &String) -> (r: Option<&Checkout>)
        ensures
            match r {
                Some(checkout) => lookup(self@, id@) == Some(checkout@),
                None => lookup(self@, id@) is None,
            },
    {
        let ghost all = self@;
        let mut i: usize = 0;
        proof {
            assert(all.skip(0) == all);
        }
        while i < self.checkouts.len()
            invariant
                i <= self.checkouts.len(),
                all == self@,
                lookup(all, id@) == lookup(all.skip(i as int), id@),
            decreases self.checkouts.len() - i,
        {
            proof {
                let rest = all.skip(i as int);
                assert(rest[0] == all[i as int]);
                assert(rest.drop_first() == all.skip(i + 1));
            }
            if self.checkouts[i].0 == *id {
                return Some(&self.checkouts[i].1);
            }
            i += 1;
        }
        None
    }
}

/// How the survey of one extension ends.
#[derive(Debug, PartialEq, Eq)]
pub enum Outcome<T> {
    /// The working tree holds nothing of the extension that the survey is
    /// about. The extension adds nothing to the report.
    Skipped,
    /// The manifest could not be loaded. The error is reported, and nothing
    /// else of the extension is looked at.
    ManifestError(ManifestError),
    /// The extension was read and nothing in it is what the survey looks for.
    NoMatch,
    /// What the survey found in the extension.
    Matched(T),
}

pub ghost enum OutcomeView<V> {
    Skipped,
    ManifestError(ManifestErrorView),
    NoMatch,
    Matched(V),
}

impl<T: View> View for Outcome<T> {
    type V = OutcomeView<T::V>;

    open spec fn view(&self) -> OutcomeView<T::V> {
        match self {
            Outcome::Skipped => OutcomeView::Skipped,
            Outcome::ManifestError(e) => OutcomeView::ManifestError(e@),
            Outcome::NoMatch => OutcomeView::NoMatch,
            Outcome::Matched(found) => OutcomeView::Matched(found@),
        }
    }
}

/// A survey over the extensions of a well-formed registry: what it prints
/// once it has walked them all, in the order of their identifiers.
pub trait Survey {
    /// What the survey prints for a registry and a working tree.
    spec fn output(
        &self,
        registry: Seq<(Seq<char>, ExtensionEntryView)>,
        tree: Seq<(Seq<char>, CheckoutView)>,
    ) -> Seq<char>;

    /// Runs the survey and returns what is to be printed.
    fn run(&self, extensions_toml: &ExtensionsToml, work_tree: &WorkTree) -> (r: String)
        requires
            extensions_toml.wf(),
        ensures
            r@ == self.output(extensions_toml@, work_tree@),
    ;
}

/// A link to a repository, or `???` where the repository is not known.
pub open spec fn repository_link(repository: Option<Seq<char>>) -> Seq<char> {
    match repository {
        Some(url) => "["@ + url + "]("@ + url + ")"@,
        None => "???"@,
    }
}

/// The line that opens the entry of an extension.
pub open spec fn checkbox_line(id: Seq<char>) -> Seq<char> {
    "- [ ] `"@ + id + "`\n"@
}

/// The line that reports a manifest that could not be loaded.
pub open spec fn manifest_error_line(e: ManifestErrorView) -> Seq<char> {
    "    - Failed to load extension manifest: "@ + e.message() + "\n"@
}

/// The line that offers to create an issue, or, where no link could be
/// built, a line that says why.
pub open spec fn issue_line(link: Result<Seq<char>, IssueLinkErrorView>) -> Seq<char> {
    match link {
        Ok(url) => "    - [Create Issue]("@ + url + ")\n"@,
        Err(e) => "    - No issue link: "@ + e.message() + "\n"@,
    }
}

/// Writes a link to a repository.
pub fn write_repository_link(out: &mut String, repository: &Option<String>)
    ensures
        final(out)@ == old(out)@ + repository_link(opt_view(*repository)),
{
    match repository {
        Some(url) => {
            out.append("[");
            out.append(url.as_str());
            out.append("](");
            out.append(url.as_str());
            out.append(")");
        },
        None => {
            out.append("???");
        },
    }
}

/// Writes the line that opens the entry of an extension.
pub fn write_checkbox_line(out: &mut String, id: &str)
    ensures
        final(out)@ == old(out)@ + checkbox_line(id@),
{
    out.append("- [ ] `");
    out.append(id);
    out.append("`\n");
}

/// Writes the line that reports a manifest that could not be loaded.
pub fn write_manifest_error_line(out: &mut String, e: &ManifestError)
    ensures
        final(out)@ == old(out)@ + manifest_error_line(e@),
{
    out.append("    - Failed to load extension manifest: ");
    out.append(e.message().as_str());
    out.append("\n");
}

/// Writes the line that offers to create an issue.
pub fn write_issue_line(out: &mut String, link: &Result<String, IssueLinkError>)
    ensures
        final(out)@ == old(out)@ + issue_line(
            match *link {
                Ok(url) => Ok(url@),
                Err(e) => Err(e@),
            },
        ),
{
    match link {
        Ok(url) => {
            out.append("    - [Create Issue](");
            out.append(url.as_str());
            out.append(")\n");
        },
        Err(e) => {
            out.append("    - No issue link: ");
            out.append(e.message().as_str());
            out.append("\n");
        },
    }
}

} // verus!
