//! The survey of the extensions that still have a manifest in the legacy
//! format.

use crate::document::lookup;
use crate::extension::opt_view;
use crate::extensions::{ExtensionEntryView, ExtensionsToml};
use crate::fold::{flat_map, lemma_flat_map_step};
use crate::github::{create_github_issue_url, issue_link};
use crate::manifest::{parse_manifest, parsed_manifest, ManifestFormat};
use crate::survey::{
    checkbox_line, issue_line, manifest_error_line, repository_link, write_checkbox_line,
    write_issue_line, write_manifest_error_line, write_repository_link, Checkout, CheckoutView,
    Outcome, OutcomeView, Survey, WorkTree,
};
use vstd::prelude::*;
use vstd::string::*;

verus! {

/// The survey of every extension that has an `extension.json`.
pub struct ExtensionJsonUsage;

/// What the survey found in one extension: a legacy manifest, and the
/// repository that it names.
#[derive(Debug, PartialEq, Eq)]
pub struct LegacyManifest {
    pub repository: Option<String>,
}

pub ghost struct LegacyManifestView {
    pub repository: Option<Seq<char>>,
}

impl View for LegacyManifest {
    type V = LegacyManifestView;

    open spec fn view(&self) -> LegacyManifestView {
        LegacyManifestView { repository: opt_view(self.repository) }
    }
}

/// How the survey of one extension ends. Without a legacy manifest the
/// extension is skipped, whatever else it has.
pub open spec fn json_outcome(checkout: CheckoutView) -> OutcomeView<LegacyManifestView> {
    match checkout.manifest_json {
        None => OutcomeView::Skipped,
        Some(text) => match parsed_manifest(ManifestFormat::Json, text) {
            Err(e) => OutcomeView::ManifestError(e),
            Ok(manifest) => OutcomeView::Matched(
                LegacyManifestView { repository: manifest.repository },
            ),
        },
    }
}

/// The title of the issue that the report offers to create.
pub open spec fn migration_title() -> Seq<char> {
    "Migrate to `extension.toml`"@
}

/// The body of the issue that the report offers to create.
pub open spec fn migration_body() -> Seq<char> {
    "This extension has been identified as still using the legacy `extension.json` manifest format.\n\n"@
        + "Extensions should use the new `extension.toml` manifest format. See the [Zed extension documentation](https://zed.dev/docs/extensions/developing-extensions#directory-structure-of-a-zed-extension) for more information."@
}

/// The lines that name the repository and offer to create an issue on it.
pub open spec fn repository_part(repository: Option<Seq<char>>) -> Seq<char> {
    match repository {
        Some(url) => "  - Repository URL: "@ + repository_link(repository) + "\n"@
            + "  - Issue: \n"@ + issue_line(issue_link(url, migration_title(), migration_body())),
        None => "???\n"@ + "  - Issue: \n"@,
    }
}

/// The section of one extension in the report: the line that opens it, the
/// repository or the mark of an unknown one, and then the offer to create an
/// issue or, where the manifest could not be loaded, the error.
pub open spec fn json_section(id: Seq<char>, outcome: OutcomeView<LegacyManifestView>) -> Seq<
    char,
> {
    match outcome {
        OutcomeView::Skipped => Seq::empty(),
        OutcomeView::NoMatch => Seq::empty(),
        OutcomeView::ManifestError(e) => checkbox_line(id) + repository_part(None)
            + manifest_error_line(e),
        OutcomeView::Matched(found) => checkbox_line(id) + repository_part(found.repository),
    }
}

/// What one entry of the registry adds to the report.
pub open spec fn json_entry(tree: Seq<(Seq<char>, CheckoutView)>) -> spec_fn(
    (Seq<char>, ExtensionEntryView),
) -> Seq<char> {
    |entry: (Seq<char>, ExtensionEntryView)|
        match lookup(tree, entry.0) {
            Some(checkout) => json_section(entry.0, json_outcome(checkout)),
            None => Seq::empty(),
        }
}

impl ExtensionJsonUsage {
    /// Surveys one extension.
    pub fn survey(&self, checkout: &Checkout) -> (r: Outcome<LegacyManifest>)
        ensures
            r@ == json_outcome(checkout@),
    {
        let text = match &checkout.manifest_json {
            None => {
                return Outcome::Skipped;
            },
            Some(text) => text,
        };
        match parse_manifest(ManifestFormat::Json, text.as_str()) {
            Err(e) => Outcome::ManifestError(e),
            Ok(manifest) => Outcome::Matched(LegacyManifest { repository: manifest.repository }),
        }
    }

    /// Writes the section of one extension in the report.
    pub fn render(&self, id: &str, outcome: &Outcome<LegacyManifest>) -> (r: String)
        ensures
            r@ == json_section(id@, outcome@),
    {
        let mut out = String::new();
        match outcome {
            Outcome::Skipped => {},
            Outcome::NoMatch => {},
            Outcome::ManifestError(e) => {
                write_checkbox_line(&mut out, id);
                out.append("???\n");
                out.append("  - Issue: \n");
                write_manifest_error_line(&mut out, e);
            },
            Outcome::Matched(found) => {
                write_checkbox_line(&mut out, id);
                match &found.repository {
                    Some(repository) => {
                        out.append("  - Repository URL: ");
                        write_repository_link(&mut out, &found.repository);
                        out.append("\n");
                        out.append("  - Issue: \n");
                        let mut body = String::new();
                        body.append(
                            "This extension has been identified as still using the legacy `extension.json` manifest format.\n\n",
                        );
                        body.append(
                            "Extensions should use the new `extension.toml` manifest format. See the [Zed extension documentation](https://zed.dev/docs/extensions/developing-extensions#directory-structure-of-a-zed-extension) for more information.",
                        );
                        let link = create_github_issue_url(
                            repository.as_str(),
                            "Migrate to `extension.toml`",
                            body.as_str(),
                        );
                        write_issue_line(&mut out, &link);
                    },
                    None => {
                        out.append("???\n");
                        out.append("  - Issue: \n");
                    },
                }
            },
        }
        out
    }
}

impl Survey for ExtensionJsonUsage {
    /// A heading, the sections of the extensions in the order of the
    /// registry, and a line feed.
    open spec fn output(
        &self,
        registry: Seq<(Seq<char>, ExtensionEntryView)>,
        tree: Seq<(Seq<char>, CheckoutView)>,
    ) -> Seq<char> {
        "## Extensions using `extension.json`\n"@ + flat_map(registry, json_entry(tree)) + "\n"@
    }

    fn run(&self, extensions_toml: &ExtensionsToml, work_tree: &WorkTree) -> (r: String) {
        let ghost registry = extensions_toml@;
        let ghost entry = json_entry(work_tree@);
        let mut report = "## Extensions using `extension.json`\n".to_owned();
        proof {
            assert(registry.take(0) == Seq::<(Seq<char>, ExtensionEntryView)>::empty());
        }
        let mut i: usize = 0;
        while i < extensions_toml.extensions.len()
            invariant
                i <= extensions_toml.extensions.len(),
                registry == extensions_toml@,
                entry == json_entry(work_tree@),
                report@ == "## Extensions using `extension.json`\n"@ + flat_map(
                    registry.take(i as int),
                    entry,
                ),
            decreases extensions_toml.extensions.len() - i,
        {
            proof {
                lemma_flat_map_step(registry, entry, i as int);
            }
            let id = &extensions_toml.extensions[i].0;
            match work_tree.checkout(id) {
                Some(checkout) => {
                    let outcome = self.survey(checkout);
                    report.append(self.render(id.as_str(), &outcome).as_str());
                },
                None => {},
            }
            i += 1;
        }
        proof {
            assert(registry.take(i as int) == registry);
        }
        report.append("\n");
        report
    }
}

/// An extension whose legacy manifest cannot be read stays in the listing:
/// its section names it, marks its repository as unknown, reports the error
/// and offers no issue.
pub proof fn lemma_unparseable_manifest_is_listed(id: Seq<char>, checkout: CheckoutView)
    requires
        checkout.manifest_json is Some,
        parsed_manifest(ManifestFormat::Json, checkout.manifest_json->Some_0) is Err,
    ensures
        json_section(id, json_outcome(checkout)) == checkbox_line(id) + "???\n"@
            + "  - Issue: \n"@ + manifest_error_line(
            parsed_manifest(ManifestFormat::Json, checkout.manifest_json->Some_0)->Err_0,
        ),
{
}

} // verus!
