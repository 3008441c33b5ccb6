//! The survey of the themes that use a given style property.

use crate::document::{lookup, views};
use crate::extension::opt_view;
use crate::extensions::{ExtensionEntryView, ExtensionsToml};
use crate::fold::{flat_map, lemma_flat_map_skip, lemma_flat_map_step};
use crate::github::{create_github_issue_url, issue_link};
use crate::manifest::{load_manifest, loaded_manifest, ManifestErrorView};
use crate::survey::{
    checkbox_line, issue_line, manifest_error_line, repository_link, write_checkbox_line,
    write_issue_line, write_manifest_error_line, write_repository_link, Checkout, CheckoutView,
    Outcome, OutcomeView, Survey, WorkTree,
};
use crate::text::{debug_form, debug_format};
use crate::theme::{
    failure_views, is_theme_path, lemma_malformed_file_is_isolated, load_failures, load_themes,
    loaded_themes, parsed_family, theme_views, Theme, ThemeFailure, ThemeFailureView,
    ThemeFileView, ThemeView,
};
use vstd::prelude::*;
use vstd::string::*;

verus! {

/// The survey of one style property. The property is given as a path through
/// nested sections, innermost key first: the last segment is looked up in
/// the style itself, the one before it in what is found there, and so on
/// down to the first.
pub struct ThemePropertyUsage {
    theme_property: Vec<String>,
}

impl View for ThemePropertyUsage {
    type V = Seq<Seq<char>>;

    closed spec fn view(&self) -> Seq<Seq<char>> {
        views(self.theme_property@)
    }
}

/// What the survey found in one extension: the names of the themes that use
/// the property, and the theme files that could not be read.
#[derive(Debug, PartialEq, Eq)]
pub struct ThemeFindings {
    pub repository: Option<String>,
    pub failures: Vec<ThemeFailure>,
    pub themes: Vec<String>,
}

pub ghost struct ThemeFindingsView {
    pub repository: Option<Seq<char>>,
    pub failures: Seq<ThemeFailureView>,
    pub themes: Seq<Seq<char>>,
}

impl View for ThemeFindings {
    type V = ThemeFindingsView;

    open spec fn view(&self) -> ThemeFindingsView {
        ThemeFindingsView {
            repository: opt_view(self.repository),
            failures: failure_views(self.failures@),
            themes: views(self.themes@),
        }
    }
}

/// A segment between backticks.
pub open spec fn quoted(segment: Seq<char>) -> Seq<char> {
    "`"@ + segment + "`"@
}

/// The name of the property in words: its segments between backticks, the
/// last one first, with ` in section ` between them.
pub open spec fn property_name_of(path: Seq<Seq<char>>) -> Seq<char>
    decreases path.len(),
{
    if path.len() == 0 {
        Seq::empty()
    } else if path.len() == 1 {
        quoted(path[0])
    } else {
        quoted(path.last()) + " in section "@ + property_name_of(path.drop_last())
    }
}

/// The theme uses the property: the whole path can be walked through its
/// style.
pub open spec fn uses_property(path: Seq<Seq<char>>, theme: ThemeView) -> bool {
    theme.style.descend(path) is Some
}

/// The test for the themes that use the property.
pub open spec fn uses(path: Seq<Seq<char>>) -> spec_fn(ThemeView) -> bool {
    |theme: ThemeView| uses_property(path, theme)
}

/// The name of a theme.
pub open spec fn theme_name() -> spec_fn(ThemeView) -> Seq<char> {
    |theme: ThemeView| theme.name
}

/// The names of the themes that use the property, in the order of the themes.
pub open spec fn matching(path: Seq<Seq<char>>, themes: Seq<ThemeView>) -> Seq<Seq<char>> {
    themes.filter(uses(path)).map_values(theme_name())
}

/// How the survey of one extension ends. Without a themes directory the
/// extension is skipped. The manifest is loaded before any theme file is
/// looked at: where that fails, the outcome is the error, whatever the theme
/// files hold.
pub open spec fn theme_outcome(path: Seq<Seq<char>>, checkout: CheckoutView) -> OutcomeView<
    ThemeFindingsView,
> {
    match checkout.themes {
        None => OutcomeView::Skipped,
        Some(files) => match loaded_manifest(checkout.manifest_toml, checkout.manifest_json) {
            Err(e) => OutcomeView::ManifestError(e),
            Ok(manifest) => {
                let failures = load_failures(files);
                let themes = matching(path, loaded_themes(files));
                if failures.len() == 0 && themes.len() == 0 {
                    OutcomeView::NoMatch
                } else {
                    OutcomeView::Matched(
                        ThemeFindingsView { repository: manifest.repository, failures, themes },
                    )
                }
            },
        },
    }
}

/// The three lines that open the section of an extension.
pub open spec fn header(id: Seq<char>, repository: Option<Seq<char>>) -> Seq<char> {
    checkbox_line(id) + "  - Repository: "@ + repository_link(repository) + "\n"@
        + "  - Issue: TBD\n"@
}

/// What is said of a theme that uses the property.
pub open spec fn usage(name: Seq<char>, property_name: Seq<char>) -> Seq<char> {
    "Theme "@ + debug_form(name) + " is using deprecated style property "@ + property_name
}

/// The line of a theme that uses the property, behind a prefix.
pub open spec fn usage_line(prefix: Seq<char>, property_name: Seq<char>) -> spec_fn(
    Seq<char>,
) -> Seq<char> {
    |name: Seq<char>| prefix + usage(name, property_name) + "\n"@
}

/// The line of a theme file that could not be read.
pub open spec fn failure_line() -> spec_fn(ThemeFailureView) -> Seq<char> {
    |failure: ThemeFailureView|
        "    - Failed to parse theme file at "@ + debug_form(failure.path) + ": "@
            + failure.message + "\n"@
}

/// The title of the issue that the report offers to create.
pub open spec fn issue_title(property_name: Seq<char>) -> Seq<char> {
    "Deprecated `"@ + property_name + "` usage"@
}

/// The body of the issue that the report offers to create.
pub open spec fn issue_body(themes: Seq<Seq<char>>, property_name: Seq<char>) -> Seq<char> {
    "This extension has been identified as using the deprecated `scrollbar_thumb.background` style property.\n\n"@
        + "This property has been deprecated in favor of `scrollbar.thumb.background`. Please migrate to using the new property.\n\n"@
        + "The following themes are impacted:\n\n"@ + flat_map(
        themes,
        usage_line("- "@, property_name),
    )
}

/// The line that offers to create an issue: there is one where a theme uses
/// the property and the repository is known.
pub open spec fn issue_part(found: ThemeFindingsView, property_name: Seq<char>) -> Seq<char> {
    if found.themes.len() > 0 && found.repository is Some {
        issue_line(
            issue_link(
                found.repository->Some_0,
                issue_title(property_name),
                issue_body(found.themes, property_name),
            ),
        )
    } else {
        Seq::empty()
    }
}

/// The section of one extension in the report. An extension that was skipped
/// or in which nothing was found has none. A manifest that could not be
/// loaded is reported under an unknown repository. Else the section holds
/// the header, the offer to create an issue, a line for each theme file that
/// could not be read and a line for each theme that uses the property.
pub open spec fn theme_section(
    path: Seq<Seq<char>>,
    id: Seq<char>,
    outcome: OutcomeView<ThemeFindingsView>,
) -> Seq<char> {
    match outcome {
        OutcomeView::Skipped => Seq::empty(),
        OutcomeView::NoMatch => Seq::empty(),
        OutcomeView::ManifestError(e) => header(id, None) + "  - Errors:\n"@
            + manifest_error_line(e),
        OutcomeView::Matched(found) => header(id, found.repository) + issue_part(
            found,
            property_name_of(path),
        ) + "  - Errors:\n"@ + flat_map(found.failures, failure_line()) + flat_map(
            found.themes,
            usage_line("    - "@, property_name_of(path)),
        ),
    }
}

/// What one entry of the registry adds to the report: the section of its
/// checkout, or nothing where the working tree has no checkout of it.
pub open spec fn theme_entry(path: Seq<Seq<char>>, tree: Seq<(Seq<char>, CheckoutView)>) -> spec_fn(
    (Seq<char>, ExtensionEntryView),
) -> Seq<char> {
    |entry: (Seq<char>, ExtensionEntryView)|
        match lookup(tree, entry.0) {
            Some(checkout) => theme_section(path, entry.0, theme_outcome(path, checkout)),
            None => Seq::empty(),
        }
}

/// Writes the three lines that open the section of an extension.
fn write_header(out: &mut String, id: &str, repository: &Option<String>)
    ensures
        final(out)@ == old(out)@ + header(id@, opt_view(*repository)),
{
    write_checkbox_line(out, id);
    out.append("  - Repository: ");
    write_repository_link(out, repository);
    out.append("\n");
    out.append("  - Issue: TBD\n");
}

/// The line of a theme that uses the property.
fn usage_text(prefix: &str, name: &String, property_name: &str) -> (r: String)
    ensures
        r@ == usage_line(prefix@, property_name@)(name@),
{
    let mut out = prefix.to_owned();
    out.append("Theme ");
    out.append(debug_format(name.as_str()).as_str());
    out.append(" is using deprecated style property ");
    out.append(property_name);
    out.append("\n");
    out
}

/// The line of a theme file that could not be read.
fn failure_text(failure: &ThemeFailure) -> (r: String)
    ensures
        r@ == failure_line()(failure@),
{
    let mut out = "    - Failed to parse theme file at ".to_owned();
    out.append(debug_format(failure.path.as_str()).as_str());
    out.append(": ");
    out.append(failure.message.as_str());
    out.append("\n");
    out
}

/// Writes a line for each theme that uses the property.
fn write_usage_lines(out: &mut String, prefix: &str, themes: &Vec<String>, property_name: &str)
    ensures
        final(out)@ == old(out)@ + flat_map(views(themes@), usage_line(prefix@, property_name@)),
{
    let ghost names = views(themes@);
    let ghost line = usage_line(prefix@, property_name@);
    let ghost start = out@;
    proof {
        assert(names.take(0) == Seq::<Seq<char>>::empty());
    }
    let mut i: usize = 0;
    while i < themes.len()
        invariant
            i <= themes.len(),
            names == views(themes@),
            line == usage_line(prefix@, property_name@),
            out@ == start + flat_map(names.take(i as int), line),
        decreases themes.len() - i,
    {
        proof {
            lemma_flat_map_step(names, line, i as int);
        }
        let line = usage_text(prefix, &themes[i], property_name);
        out.append(line.as_str());
        i += 1;
    }
    proof {
        assert(names.take(i as int) == names);
    }
}

/// Writes a line for each theme file that could not be read.
fn write_failure_lines(out: &mut String, failures: &Vec<ThemeFailure>)
    ensures
        final(out)@ == old(out)@ + flat_map(failure_views(failures@), failure_line()),
{
    let ghost all = failure_views(failures@);
    let ghost line = failure_line();
    let ghost start = out@;
    proof {
        assert(all.take(0) == Seq::<ThemeFailureView>::empty());
    }
    let mut i: usize = 0;
    while i < failures.len()
        invariant
            i <= failures.len(),
            all == failure_views(failures@),
            line == failure_line(),
            out@ == start + flat_map(all.take(i as int), line),
        decreases failures.len() - i,
    {
        proof {
            lemma_flat_map_step(all, line, i as int);
        }
        let line = failure_text(&failures[i]);
        out.append(line.as_str());
        i += 1;
    }
    proof {
        assert(all.take(i as int) == all);
    }
}

impl ThemePropertyUsage {
    /// A survey of the property with the given path, innermost key first.
    pub fn new(theme_property: Vec<String>) -> (r: Self)
        ensures
            r@ == views(theme_property@),
    {
        Self { theme_property }
    }

    /// The name of the property in words.
    pub fn property_name(&self) -> (r: String)
        ensures
            r@ == property_name_of(self@),
    {
        let ghost path = self@;
        let n = self.theme_property.len();
        let mut out = String::new();
        let mut i: usize = n;
        proof {
            assert(path.take(n as int) == path);
        }
        while i > 0
            invariant
                i <= n,
                n == self.theme_property.len(),
                path == self@,
                path.len() == n,
                property_name_of(path) == out@ + (if 0 < i < n {
                    " in section "@
                } else {
                    Seq::empty()
                }) + property_name_of(path.take(i as int)),
            decreases i,
        {
            proof {
                let head = path.take(i as int);
                assert(head.last() == path[i - 1]);
                assert(head.drop_last() == path.take(i - 1));
                assert(head[0] == path[0]);
            }
            if i < n {
                out.append(" in section ");
            }
            out.append("`");
            out.append(self.theme_property[i - 1].as_str());
            out.append("`");
            i -= 1;
        }
        proof {
            assert(path.take(0).len() == 0);
        }
        out
    }

    /// Whether a theme uses the property.
    pub fn matches(&self, theme: &Theme) -> (r: bool)
        ensures
            r == uses_property(self@, theme@),
    {
        theme.style.descend(&self.theme_property).is_some()
    }

    /// The names of the themes that use the property, in the order of the
    /// themes.
    pub fn matching(&self, themes: &Vec<Theme>) -> (r: Vec<String>)
        ensures
            views(r@) == matching(self@, theme_views(themes@)),
    {
        let ghost all = theme_views(themes@);
        let ghost path = self@;
        let ghost used = uses(path);
        let ghost name = theme_name();
        let mut names: Vec<String> = Vec::new();
        proof {
            reveal(Seq::filter);
            assert(all.take(0) == Seq::<ThemeView>::empty());
            assert(views(names@) == all.take(0).filter(used).map_values(name));
        }
        let mut i: usize = 0;
        while i < themes.len()
            invariant
                i <= themes.len(),
                all == theme_views(themes@),
                path == self@,
                used == uses(path),
                name == theme_name(),
                views(names@) == all.take(i as int).filter(used).map_values(name),
            decreases themes.len() - i,
        {
            proof {
                let next = all.take(i + 1);
                assert(next.drop_last() == all.take(i as int));
                assert(next.last() == themes@[i as int]@);
            }
            let ghost before = all.take(i as int).filter(used);
            let ghost theme = themes@[i as int]@;
            let ghost found = views(names@);
            if self.matches(&themes[i]) {
                names.push(themes[i].name.clone());
                proof {
                    assert(used(theme));
                    all.take(i as int).lemma_filter_push(theme, used);
                    assert(all.take(i + 1) == all.take(i as int).push(theme));
                    assert(all.take(i + 1).filter(used) == before.push(theme));
                    assert(views(names@) == found.push(theme.name));
                    assert(before.push(theme).map_values(name) == before.map_values(name).push(
                        name(theme),
                    ));
                }
            } else {
                proof {
                    assert(!used(theme));
                    all.take(i as int).lemma_filter_push(theme, used);
                    assert(all.take(i + 1) == all.take(i as int).push(theme));
                    assert(all.take(i + 1).filter(used) == before);
                }
            }
            i += 1;
        }
        proof {
            assert(all.take(i as int) == all);
        }
        names
    }

    /// Surveys one extension.
    pub fn survey(&self, checkout: &Checkout) -> (r: Outcome<ThemeFindings>)
        ensures
            r@ == theme_outcome(self@, checkout@),
    {
        let files = match &checkout.themes {
            None => {
                return Outcome::Skipped;
            },
            Some(files) => files,
        };
        let manifest = match load_manifest(&checkout.manifest_toml, &checkout.manifest_json) {
            Err(e) => {
                return Outcome::ManifestError(e);
            },
            Ok(manifest) => manifest,
        };
        let loaded = load_themes(files);
        let themes = self.matching(&loaded.themes);
        if loaded.failures.len() == 0 && themes.len() == 0 {
            Outcome::NoMatch
        } else {
            Outcome::Matched(
                ThemeFindings { repository: manifest.repository, failures: loaded.failures, themes },
            )
        }
    }

    /// Writes the section of one extension in the report.
    pub fn render(&self, id: &str, outcome: &Outcome<ThemeFindings>) -> (r: String)
        ensures
            r@ == theme_section(self@, id@, outcome@),
    {
        let mut out = String::new();
        match outcome {
            Outcome::Skipped => {},
            Outcome::NoMatch => {},
            Outcome::ManifestError(e) => {
                write_header(&mut out, id, &None);
                out.append("  - Errors:\n");
                write_manifest_error_line(&mut out, e);
            },
            Outcome::Matched(found) => {
                let property_name = self.property_name();
                write_header(&mut out, id, &found.repository);
                if found.themes.len() > 0 {
                    if let Some(repository) = &found.repository {
                        let mut title = "Deprecated `".to_owned();
                        title.append(property_name.as_str());
                        title.append("` usage");
                        let mut body = String::new();
                        body.append(
                            "This extension has been identified as using the deprecated `scrollbar_thumb.background` style property.\n\n",
                        );
                        body.append(
                            "This property has been deprecated in favor of `scrollbar.thumb.background`. Please migrate to using the new property.\n\n",
                        );
                        body.append("The following themes are impacted:\n\n");
                        write_usage_lines(&mut body, "- ", &found.themes, property_name.as_str());
                        let link = create_github_issue_url(
                            repository.as_str(),
                            title.as_str(),
                            body.as_str(),
                        );
                        write_issue_line(&mut out, &link);
                    }
                }
                out.append("  - Errors:\n");
                write_failure_lines(&mut out, &found.failures);
                write_usage_lines(&mut out, "    - ", &found.themes, property_name.as_str());
            },
        }
        out
    }
}

impl Survey for ThemePropertyUsage {
    /// The sections of the extensions, in the order of the registry, and a
    /// line feed.
    open spec fn output(
        &self,
        registry: Seq<(Seq<char>, ExtensionEntryView)>,
        tree: Seq<(Seq<char>, CheckoutView)>,
    ) -> Seq<char> {
        flat_map(registry, theme_entry(self@, tree)) + "\n"@
    }

    fn run(&self, extensions_toml: &ExtensionsToml, work_tree: &WorkTree) -> (r: String) {
        let ghost registry = extensions_toml@;
        let ghost entry = theme_entry(self@, work_tree@);
        let mut report = String::new();
        proof {
            assert(registry.take(0) == Seq::<(Seq<char>, ExtensionEntryView)>::empty());
        }
        let mut i: usize = 0;
        while i < extensions_toml.extensions.len()
            invariant
                i <= extensions_toml.extensions.len(),
                registry == extensions_toml@,
                entry == theme_entry(self@, work_tree@),
                report@ == flat_map(registry.take(i as int), entry),
            decreases extensions_toml.extensions.len() - i,
        {
            proof {
                lemma_flat_map_step(registry, entry, i as int);
            }
            let id = &extensions_toml.extensions[i].0;
            match work_tree.checkout(id) {
                Some(checkout) => {
                    let outcome = self.survey(checkout);
                    report.append(self.render(id.as_str(), &outcome).as_str());
                },
                None => {},
            }
            i += 1;
        }
        proof {
            assert(registry.take(i as int) == registry);
        }
        report.append("\n");
        report
    }
}

/// An extension without a themes directory adds nothing to the report, not
/// even an error line, whatever else its checkout holds.
pub proof fn lemma_no_themes_directory_adds_nothing(
    path: Seq<Seq<char>>,
    id: Seq<char>,
    checkout: CheckoutView,
)
    requires
        checkout.themes is None,
    ensures
        theme_outcome(path, checkout) == OutcomeView::<ThemeFindingsView>::Skipped,
        theme_section(path, id, theme_outcome(path, checkout)) == Seq::<char>::empty(),
{
}

/// The report of a registry is the same with and without an entry whose
/// extension has no themes directory.
pub proof fn lemma_entry_without_themes_can_be_left_out(
    survey: ThemePropertyUsage,
    before: Seq<(Seq<char>, ExtensionEntryView)>,
    entry: (Seq<char>, ExtensionEntryView),
    after: Seq<(Seq<char>, ExtensionEntryView)>,
    tree: Seq<(Seq<char>, CheckoutView)>,
)
    requires
        lookup(tree, entry.0) matches Some(checkout) ==> checkout.themes is None,
    ensures
        survey.output(before + seq![entry] + after, tree) == survey.output(before + after, tree),
{
    lemma_flat_map_skip(before, entry, after, theme_entry(survey@, tree));
}

/// Where the manifest of an extension cannot be loaded, the theme survey
/// reports the error and looks at no theme file: the outcome is the same
/// whatever the themes directory holds.
pub proof fn lemma_manifest_error_excludes_themes(
    path: Seq<Seq<char>>,
    one: CheckoutView,
    other: CheckoutView,
)
    requires
        one.themes is Some,
        other.themes is Some,
        one.manifest_toml == other.manifest_toml,
        one.manifest_json == other.manifest_json,
        loaded_manifest(one.manifest_toml, one.manifest_json) is Err,
    ensures
        theme_outcome(path, one) == theme_outcome(path, other),
        theme_outcome(path, one) == OutcomeView::<ThemeFindingsView>::ManifestError(
            loaded_manifest(one.manifest_toml, one.manifest_json)->Err_0,
        ),
{
}

/// Per-file isolation in the report: where the manifest is loaded and one
/// of the theme files is malformed, the extension is reported with exactly
/// one failure for that file, between the failures of the files before it
/// and of those after it, and with every theme of the other files that uses
/// the property.
pub proof fn lemma_malformed_file_is_reported_once(
    path: Seq<Seq<char>>,
    checkout: CheckoutView,
    before: Seq<ThemeFileView>,
    file: ThemeFileView,
    after: Seq<ThemeFileView>,
)
    requires
        checkout.themes == Some(before + seq![file] + after),
        loaded_manifest(checkout.manifest_toml, checkout.manifest_json) is Ok,
        is_theme_path(file.path),
        parsed_family(file.text) is Err,
    ensures
        theme_outcome(path, checkout) == OutcomeView::Matched(
            ThemeFindingsView {
                repository: loaded_manifest(
                    checkout.manifest_toml,
                    checkout.manifest_json,
                )->Ok_0.repository,
                failures: load_failures(before) + seq![
                    ThemeFailureView { path: file.path, message: parsed_family(file.text)->Err_0 },
                ] + load_failures(after),
                themes: matching(path, loaded_themes(before + after)),
            },
        ),
{
    lemma_malformed_file_is_isolated(before, file, after);
    let failures = load_failures(before + seq![file] + after);
    assert(failures.len() > 0);
}

} // verus!
