//! The survey of the grammars that the extensions declare, and of the
//! grammar sources that more than one extension declares.

use crate::document::{lookup, views};
use crate::extension::{opt_view, GrammarManifestEntry, GrammarManifestEntryView};
use crate::extensions::{ExtensionEntryView, ExtensionsToml};
use crate::fold::{
    flat_map, lemma_flat_map_step, lemma_without_repeats, lemma_without_repeats_push,
    without_repeats,
};
use crate::manifest::{load_manifest, loaded_manifest};
use crate::shape::named_views;
use crate::survey::{
    manifest_error_line, write_manifest_error_line, Checkout, CheckoutView, Outcome, OutcomeView,
    Survey, WorkTree,
};
use crate::text::{trim_suffix, without_suffix};
use vstd::prelude::*;
use vstd::string::*;

verus! {

/// The survey of the grammars of every extension that has a manifest.
pub struct TreeSitterGrammars;

/// What the survey found in one extension: the grammars that its manifest
/// declares, each under its name.
#[derive(Debug, PartialEq, Eq)]
pub struct GrammarFindings {
    pub grammars: Vec<(String, GrammarManifestEntry)>,
}

impl View for GrammarFindings {
    type V = Seq<(Seq<char>, GrammarManifestEntryView)>;

    open spec fn view(&self) -> Seq<(Seq<char>, GrammarManifestEntryView)> {
        named_views(self.grammars@)
    }
}

/// The canonical source of a grammar: its repository without a `.git` at its
/// end, and its path. Two sources are the same where both parts are.
#[derive(Clone, Debug, PartialEq, Eq)]
pub struct GrammarSource {
    pub repository: String,
    pub path: Option<String>,
}

pub ghost struct GrammarSourceView {
    pub repository: Seq<char>,
    pub path: Option<Seq<char>>,
}

impl View for GrammarSource {
    type V = GrammarSourceView;

    open spec fn view(&self) -> GrammarSourceView {
        GrammarSourceView { repository: self.repository@, path: opt_view(self.path) }
    }
}

impl GrammarSourceView {
    /// The source as the report shows it: the repository and, where the
    /// source has a path, a `/` and the path.
    pub open spec fn text(self) -> Seq<char> {
        self.repository + match self.path {
            Some(path) => "/"@ + path,
            None => Seq::empty(),
        }
    }
}

impl GrammarSource {
    /// Whether two sources are the same.
    pub fn same(&self, other: &GrammarSource) -> (r: bool)
        ensures
            r == (self@ == other@),
    {
        if self.repository != other.repository {
            return false;
        }
        match (&self.path, &other.path) {
            (Some(a), Some(b)) => *a == *b,
            (None, None) => true,
            _ => false,
        }
    }

    /// A copy of the source.
    pub fn copy(&self) -> (r: GrammarSource)
        ensures
            r@ == self@,
    {
        GrammarSource {
            repository: self.repository.clone(),
            path: match &self.path {
                Some(path) => Some(path.clone()),
                None => None,
            },
        }
    }
}

/// How the survey of one extension ends. An extension without a manifest in
/// either format is skipped. Else the manifest is loaded, the primary one
/// first and the legacy one where the primary is absent.
pub open spec fn grammar_outcome(checkout: CheckoutView) -> OutcomeView<
    Seq<(Seq<char>, GrammarManifestEntryView)>,
> {
    if checkout.manifest_toml is None && checkout.manifest_json is None {
        OutcomeView::Skipped
    } else {
        match loaded_manifest(checkout.manifest_toml, checkout.manifest_json) {
            Err(e) => OutcomeView::ManifestError(e),
            Ok(manifest) => if manifest.grammars.len() == 0 {
                OutcomeView::NoMatch
            } else {
                OutcomeView::Matched(manifest.grammars)
            },
        }
    }
}

/// The canonical source of a grammar.
pub open spec fn grammar_source(grammar: GrammarManifestEntryView) -> GrammarSourceView {
    GrammarSourceView {
        repository: without_suffix(grammar.repository, ".git"@),
        path: grammar.path,
    }
}

/// The lines of one grammar in the report.
pub open spec fn grammar_lines() -> spec_fn((Seq<char>, GrammarManifestEntryView)) -> Seq<char> {
    |grammar: (Seq<char>, GrammarManifestEntryView)|
        "  - "@ + grammar.0 + "\n"@ + "    - Repo: "@ + grammar.1.repository + "\n"@
            + "    - Rev: "@ + grammar.1.rev + "\n"@ + match grammar.1.path {
            Some(path) => "    - Path: "@ + path + "\n"@,
            None => Seq::empty(),
        }
}

/// The section of one extension in the report: its identifier and the lines
/// of each of its grammars, or the error with which its manifest could not
/// be loaded.
pub open spec fn grammar_section(
    id: Seq<char>,
    outcome: OutcomeView<Seq<(Seq<char>, GrammarManifestEntryView)>>,
) -> Seq<char> {
    match outcome {
        OutcomeView::Skipped => Seq::empty(),
        OutcomeView::NoMatch => Seq::empty(),
        OutcomeView::ManifestError(e) => "- "@ + id + "\n"@ + manifest_error_line(e),
        OutcomeView::Matched(grammars) => "- "@ + id + "\n"@ + flat_map(grammars, grammar_lines()),
    }
}

/// The declaration that a grammar of the extension `id` makes: the canonical
/// source of the grammar, and the extension.
pub open spec fn declaration(id: Seq<char>) -> spec_fn(
    (Seq<char>, GrammarManifestEntryView),
) -> (GrammarSourceView, Seq<char>) {
    |grammar: (Seq<char>, GrammarManifestEntryView)| (grammar_source(grammar.1), id)
}

/// The declarations that one extension makes, in the order of its grammars.
pub open spec fn declared(
    id: Seq<char>,
    outcome: OutcomeView<Seq<(Seq<char>, GrammarManifestEntryView)>>,
) -> Seq<(GrammarSourceView, Seq<char>)> {
    match outcome {
        OutcomeView::Matched(grammars) => grammars.map_values(declaration(id)),
        _ => Seq::empty(),
    }
}

/// The declaration names the source.
pub open spec fn names(source: GrammarSourceView) -> spec_fn(
    (GrammarSourceView, Seq<char>),
) -> bool {
    |d: (GrammarSourceView, Seq<char>)| d.0 == source
}

/// The extension that makes the declaration.
pub open spec fn declarer() -> spec_fn((GrammarSourceView, Seq<char>)) -> Seq<char> {
    |d: (GrammarSourceView, Seq<char>)| d.1
}

/// The extensions that declare a source: each of them once, however many of
/// its grammars have the source, in the order of their first declarations.
pub open spec fn declarers(
    declarations: Seq<(GrammarSourceView, Seq<char>)>,
    source: GrammarSourceView,
) -> Seq<Seq<char>> {
    without_repeats(declarations.filter(names(source)).map_values(declarer()))
}

/// The declaration at `at` is the first of its source.
pub open spec fn is_first(declarations: Seq<(GrammarSourceView, Seq<char>)>, at: int) -> bool {
    forall|k: int| 0 <= k < at ==> (#[trigger] declarations[k]).0 != declarations[at].0
}

/// The entry of the index that the first declaration of a source makes: the
/// source, with the extensions that declare it.
pub open spec fn entry_of(declarations: Seq<(GrammarSourceView, Seq<char>)>, at: int) -> (
    GrammarSourceView,
    Seq<Seq<char>>,
) {
    (declarations[at].0, declarers(declarations, declarations[at].0))
}

/// What the declaration at `at` adds to the index: an entry where it is the
/// first declaration of its source; nothing where it is a later one.
pub open spec fn indexed(declarations: Seq<(GrammarSourceView, Seq<char>)>) -> spec_fn(int) -> Seq<
    (GrammarSourceView, Seq<Seq<char>>),
> {
    |at: int|
        if is_first(declarations, at) {
            seq![entry_of(declarations, at)]
        } else {
            Seq::empty()
        }
}

/// The whole numbers below `n`, in order.
pub open spec fn range(n: int) -> Seq<int> {
    Seq::new(n as nat, |i: int| i)
}

/// The reverse index: every source that is declared, in the order of its
/// first declaration, with the extensions that declare it.
pub open spec fn grammar_index(declarations: Seq<(GrammarSourceView, Seq<char>)>) -> Seq<
    (GrammarSourceView, Seq<Seq<char>>),
> {
    flat_map(range(declarations.len() as int), indexed(declarations))
}

/// The line of one extension under a source.
pub open spec fn declarer_line() -> spec_fn(Seq<char>) -> Seq<char> {
    |id: Seq<char>| "  - "@ + id + "\n"@
}

/// The lines of one source of the index in the report of duplicates: none
/// for a source that a single extension declares.
pub open spec fn duplicate_lines() -> spec_fn((GrammarSourceView, Seq<Seq<char>>)) -> Seq<char> {
    |entry: (GrammarSourceView, Seq<Seq<char>>)|
        if entry.1.len() > 1 {
            "Grammar: "@ + entry.0.text() + "\n"@ + flat_map(entry.1, declarer_line())
        } else {
            Seq::empty()
        }
}

/// The report of duplicates: under one heading, the sources that more than
/// one extension declares, each with its declarers. Empty where there is no
/// such source.
pub open spec fn duplicates(index: Seq<(GrammarSourceView, Seq<Seq<char>>)>) -> Seq<char> {
    if flat_map(index, duplicate_lines()).len() > 0 {
        "Grammars provided by multiple extensions:\n"@ + flat_map(index, duplicate_lines())
    } else {
        Seq::empty()
    }
}

/// What one entry of the registry adds to the report.
pub open spec fn grammar_entry(tree: Seq<(Seq<char>, CheckoutView)>) -> spec_fn(
    (Seq<char>, ExtensionEntryView),
) -> Seq<char> {
    |entry: (Seq<char>, ExtensionEntryView)|
        match lookup(tree, entry.0) {
            Some(checkout) => grammar_section(entry.0, grammar_outcome(checkout)),
            None => Seq::empty(),
        }
}

/// The declarations that one entry of the registry makes.
pub open spec fn declared_entry(tree: Seq<(Seq<char>, CheckoutView)>) -> spec_fn(
    (Seq<char>, ExtensionEntryView),
) -> Seq<(GrammarSourceView, Seq<char>)> {
    |entry: (Seq<char>, ExtensionEntryView)|
        match lookup(tree, entry.0) {
            Some(checkout) => declared(entry.0, grammar_outcome(checkout)),
            None => Seq::empty(),
        }
}

/// The views of a sequence of declarations.
pub open spec fn declaration_views(declarations: Seq<(GrammarSource, String)>) -> Seq<
    (GrammarSourceView, Seq<char>),
> {
    Seq::new(declarations.len(), |i: int| (declarations[i].0@, declarations[i].1@))
}

/// The views of the entries of an index.
pub open spec fn index_views(index: Seq<(GrammarSource, Vec<String>)>) -> Seq<
    (GrammarSourceView, Seq<Seq<char>>),
> {
    Seq::new(index.len(), |i: int| (index[i].0@, views(index[i].1@)))
}

/// The canonical source of a grammar.
pub fn source_of(grammar: &GrammarManifestEntry) -> (r: GrammarSource)
    ensures
        r@ == grammar_source(grammar@),
{
    GrammarSource {
        repository: trim_suffix(grammar.repository.as_str(), ".git"),
        path: match &grammar.path {
            Some(path) => Some(path.clone()),
            None => None,
        },
    }
}

/// Whether an identifier is among the given ones.
fn holds(ids: &Vec<String>, id: &String) -> (r: bool)
    ensures
        r == views(ids@).contains(id@),
{
    let ghost all = views(ids@);
    let mut i: usize = 0;
    while i < ids.len()
        invariant
            i <= ids.len(),
            all == views(ids@),
            forall|k: int| 0 <= k < i ==> all[k] != id@,
        decreases ids.len() - i,
    {
        if ids[i] == *id {
            assert(all[i as int] == id@);
            return true;
        }
        i += 1;
    }
    false
}

/// The extensions that declare a source, each once.
pub fn declarers_of(declarations: &Vec<(GrammarSource, String)>, source: &GrammarSource) -> (r:
    Vec<String>)
    ensures
        views(r@) == declarers(declaration_views(declarations@), source@),
{
    let ghost all = declaration_views(declarations@);
    let ghost named = names(source@);
    let ghost id = declarer();
    let mut found: Vec<String> = Vec::new();
    proof {
        reveal(Seq::filter);
        assert(all.take(0) == Seq::<(GrammarSourceView, Seq<char>)>::empty());
        assert(all.take(0).filter(named).map_values(id) == Seq::<Seq<char>>::empty());
        assert(views(found@) == Seq::<Seq<char>>::empty());
    }
    let mut i: usize = 0;
    while i < declarations.len()
        invariant
            i <= declarations.len(),
            all == declaration_views(declarations@),
            named == names(source@),
            id == declarer(),
            views(found@) == without_repeats(all.take(i as int).filter(named).map_values(id)),
        decreases declarations.len() - i,
    {
        let ghost before = all.take(i as int).filter(named);
        let ghost d = all[i as int];
        let ghost ids = views(found@);
        proof {
            all.take(i as int).lemma_filter_push(d, named);
            assert(all.take(i + 1) == all.take(i as int).push(d));
        }
        if declarations[i].0.same(source) {
            proof {
                assert(named(d));
                assert(before.push(d).map_values(id) == before.map_values(id).push(id(d)));
                lemma_without_repeats_push(before.map_values(id), d.1);
            }
            if !holds(&found, &declarations[i].1) {
                found.push(declarations[i].1.clone());
                assert(views(found@) == ids.push(d.1));
            }
        } else {
            proof {
                assert(!named(d));
            }
        }
        i += 1;
    }
    proof {
        assert(all.take(i as int) == all);
    }
    found
}

/// Whether the declaration at `at` is the first of its source.
pub fn first_of_source(declarations: &Vec<(GrammarSource, String)>, at: usize) -> (r: bool)
    requires
        at < declarations.len(),
    ensures
        r == is_first(declaration_views(declarations@), at as int),
{
    let ghost all = declaration_views(declarations@);
    let mut k: usize = 0;
    while k < at
        invariant
            k <= at,
            at < declarations.len(),
            all == declaration_views(declarations@),
            forall|j: int| 0 <= j < k ==> (#[trigger] all[j]).0 != all[at as int].0,
        decreases at - k,
    {
        if declarations[k].0.same(&declarations[at].0) {
            assert(all[k as int].0 == all[at as int].0);
            return false;
        }
        k += 1;
    }
    true
}

/// Builds the reverse index from the declarations.
pub fn index_grammars(declarations: &Vec<(GrammarSource, String)>) -> (r: Vec<
    (GrammarSource, Vec<String>),
>)
    ensures
        index_views(r@) == grammar_index(declaration_views(declarations@)),
{
    let ghost all = declaration_views(declarations@);
    let ghost places = range(declarations.len() as int);
    let ghost part = indexed(all);
    let mut index: Vec<(GrammarSource, Vec<String>)> = Vec::new();
    proof {
        assert(places.take(0) == Seq::<int>::empty());
        assert(index_views(index@) == Seq::<(GrammarSourceView, Seq<Seq<char>>)>::empty());
    }
    let mut at: usize = 0;
    while at < declarations.len()
        invariant
            at <= declarations.len(),
            all == declaration_views(declarations@),
            places == range(declarations.len() as int),
            part == indexed(all),
            index_views(index@) == flat_map(places.take(at as int), part),
        decreases declarations.len() - at,
    {
        proof {
            lemma_flat_map_step(places, part, at as int);
            assert(places[at as int] == at);
        }
        if first_of_source(declarations, at) {
            let ghost before = index_views(index@);
            let source = declarations[at].0.copy();
            let ids = declarers_of(declarations, &source);
            index.push((source, ids));
            assert(index_views(index@) == before + part(at as int));
        }
        at += 1;
    }
    proof {
        assert(places.take(at as int) == places);
    }
    index
}

/// The lines of one grammar.
fn grammar_text(name: &String, grammar: &GrammarManifestEntry) -> (r: String)
    ensures
        r@ == grammar_lines()((name@, grammar@)),
{
    let mut out = "  - ".to_owned();
    out.append(name.as_str());
    out.append("\n");
    out.append("    - Repo: ");
    out.append(grammar.repository.as_str());
    out.append("\n");
    out.append("    - Rev: ");
    out.append(grammar.rev.as_str());
    out.append("\n");
    match &grammar.path {
        Some(path) => {
            out.append("    - Path: ");
            out.append(path.as_str());
            out.append("\n");
        },
        None => {},
    }
    out
}

/// Writes the lines of each grammar of an extension.
fn write_grammar_lines(out: &mut String, grammars: &Vec<(String, GrammarManifestEntry)>)
    ensures
        final(out)@ == old(out)@ + flat_map(named_views(grammars@), grammar_lines()),
{
    let ghost all = named_views(grammars@);
    let ghost lines = grammar_lines();
    let ghost start = out@;
    proof {
        assert(all.take(0) == Seq::<(Seq<char>, GrammarManifestEntryView)>::empty());
    }
    let mut i: usize = 0;
    while i < grammars.len()
        invariant
            i <= grammars.len(),
            all == named_views(grammars@),
            lines == grammar_lines(),
            out@ == start + flat_map(all.take(i as int), lines),
        decreases grammars.len() - i,
    {
        proof {
            lemma_flat_map_step(all, lines, i as int);
        }
        let text = grammar_text(&grammars[i].0, &grammars[i].1);
        out.append(text.as_str());
        i += 1;
    }
    proof {
        assert(all.take(i as int) == all);
    }
}

/// Writes the lines of each extension under a source.
fn write_declarer_lines(out: &mut String, ids: &Vec<String>)
    ensures
        final(out)@ == old(out)@ + flat_map(views(ids@), declarer_line()),
{
    let ghost all = views(ids@);
    let ghost line = declarer_line();
    let ghost start = out@;
    proof {
        assert(all.take(0) == Seq::<Seq<char>>::empty());
    }
    let mut i: usize = 0;
    while i < ids.len()
        invariant
            i <= ids.len(),
            all == views(ids@),
            line == declarer_line(),
            out@ == start + flat_map(all.take(i as int), line),
        decreases ids.len() - i,
    {
        proof {
            lemma_flat_map_step(all, line, i as int);
        }
        out.append("  - ");
        out.append(ids[i].as_str());
        out.append("\n");
        i += 1;
    }
    proof {
        assert(all.take(i as int) == all);
    }
}

/// The lines of one source of the index in the report of duplicates.
fn duplicate_text(source: &GrammarSource, ids: &Vec<String>) -> (r: String)
    ensures
        r@ == duplicate_lines()((source@, views(ids@))),
{
    let mut out = String::new();
    if ids.len() > 1 {
        out.append("Grammar: ");
        out.append(source.repository.as_str());
        match &source.path {
            Some(path) => {
                out.append("/");
                out.append(path.as_str());
            },
            None => {},
        }
        out.append("\n");
        write_declarer_lines(&mut out, ids);
    }
    out
}

/// Writes the report of duplicates for an index.
pub fn render_duplicates(index: &Vec<(GrammarSource, Vec<String>)>) -> (r: String)
    ensures
        r@ == duplicates(index_views(index@)),
{
    let ghost all = index_views(index@);
    let ghost lines = duplicate_lines();
    let mut entries = String::new();
    proof {
        assert(all.take(0) == Seq::<(GrammarSourceView, Seq<Seq<char>>)>::empty());
    }
    let mut i: usize = 0;
    while i < index.len()
        invariant
            i <= index.len(),
            all == index_views(index@),
            lines == duplicate_lines(),
            entries@ == flat_map(all.take(i as int), lines),
        decreases index.len() - i,
    {
        proof {
            lemma_flat_map_step(all, lines, i as int);
        }
        let text = duplicate_text(&index[i].0, &index[i].1);
        entries.append(text.as_str());
        i += 1;
    }
    proof {
        assert(all.take(i as int) == all);
    }
    if entries.as_str().unicode_len() > 0 {
        let mut out = "Grammars provided by multiple extensions:\n".to_owned();
        out.append(entries.as_str());
        out
    } else {
        entries
    }
}

impl TreeSitterGrammars {
    /// Surveys one extension.
    pub fn survey(&self, checkout: &Checkout) -> (r: Outcome<GrammarFindings>)
        ensures
            r@ == grammar_outcome(checkout@),
    {
        if checkout.manifest_toml.is_none() && checkout.manifest_json.is_none() {
            return Outcome::Skipped;
        }
        match load_manifest(&checkout.manifest_toml, &checkout.manifest_json) {
            Err(e) => Outcome::ManifestError(e),
            Ok(manifest) => {
                if manifest.grammars.len() == 0 {
                    Outcome::NoMatch
                } else {
                    Outcome::Matched(GrammarFindings { grammars: manifest.grammars })
                }
            },
        }
    }

    /// Writes the section of one extension in the report.
    pub fn render(&self, id: &str, outcome: &Outcome<GrammarFindings>) -> (r: String)
        ensures
            r@ == grammar_section(id@, outcome@),
    {
        let mut out = String::new();
        match outcome {
            Outcome::Skipped => {},
            Outcome::NoMatch => {},
            Outcome::ManifestError(e) => {
                out.append("- ");
                out.append(id);
                out.append("\n");
                write_manifest_error_line(&mut out, e);
            },
            Outcome::Matched(found) => {
                out.append("- ");
                out.append(id);
                out.append("\n");
                write_grammar_lines(&mut out, &found.grammars);
            },
        }
        out
    }

    /// Adds the declarations that one extension makes to those made so far.
    pub fn declare(
        &self,
        declarations: &mut Vec<(GrammarSource, String)>,
        id: &String,
        outcome: &Outcome<GrammarFindings>,
    )
        ensures
            declaration_views(final(declarations)@) == declaration_views(old(declarations)@)
                + declared(id@, outcome@),
    {
        let ghost start = declaration_views(declarations@);
        match outcome {
            Outcome::Matched(found) => {
                let ghost all = named_views(found.grammars@);
                let ghost declare = declaration(id@);
                let mut i: usize = 0;
                proof {
                    assert(all.take(0).map_values(declare) == Seq::<
                        (GrammarSourceView, Seq<char>),
                    >::empty());
                }
                while i < found.grammars.len()
                    invariant
                        i <= found.grammars.len(),
                        all == named_views(found.grammars@),
                        declare == declaration(id@),
                        declaration_views(declarations@) == start + all.take(
                            i as int,
                        ).map_values(declare),
                    decreases found.grammars.len() - i,
                {
                    let ghost before = declaration_views(declarations@);
                    let source = source_of(&found.grammars[i].1);
                    declarations.push((source, id.clone()));
                    proof {
                        assert(declaration_views(declarations@) == before.push((source@, id@)));
                        assert(all.take(i + 1).map_values(declare) == all.take(
                            i as int,
                        ).map_values(declare).push(declare(all[i as int])));
                    }
                    i += 1;
                }
                proof {
                    assert(all.take(i as int) == all);
                }
            },
            _ => {},
        }
    }
}

impl Survey for TreeSitterGrammars {
    /// The sections of the extensions, in the order of the registry, a line
    /// feed, and the report of duplicates.
    open spec fn output(
        &self,
        registry: Seq<(Seq<char>, ExtensionEntryView)>,
        tree: Seq<(Seq<char>, CheckoutView)>,
    ) -> Seq<char> {
        flat_map(registry, grammar_entry(tree)) + "\n"@ + duplicates(
            grammar_index(flat_map(registry, declared_entry(tree))),
        )
    }

    fn run(&self, extensions_toml: &ExtensionsToml, work_tree: &WorkTree) -> (r: String) {
        let ghost registry = extensions_toml@;
        let ghost entry = grammar_entry(work_tree@);
        let ghost declares = declared_entry(work_tree@);
        let mut report = String::new();
        let mut declarations: Vec<(GrammarSource, String)> = Vec::new();
        proof {
            assert(registry.take(0) == Seq::<(Seq<char>, ExtensionEntryView)>::empty());
            assert(declaration_views(declarations@) == Seq::<
                (GrammarSourceView, Seq<char>),
            >::empty());
        }
        let mut i: usize = 0;
        while i < extensions_toml.extensions.len()
            invariant
                i <= extensions_toml.extensions.len(),
                registry == extensions_toml@,
                entry == grammar_entry(work_tree@),
                declares == declared_entry(work_tree@),
                report@ == flat_map(registry.take(i as int), entry),
                declaration_views(declarations@) == flat_map(registry.take(i as int), declares),
            decreases extensions_toml.extensions.len() - i,
        {
            proof {
                lemma_flat_map_step(registry, entry, i as int);
                lemma_flat_map_step(registry, declares, i as int);
            }
            let id = &extensions_toml.extensions[i].0;
            match work_tree.checkout(id) {
                Some(checkout) => {
                    let outcome = self.survey(checkout);
                    report.append(self.render(id.as_str(), &outcome).as_str());
                    self.declare(&mut declarations, id, &outcome);
                },
                None => {},
            }
            i += 1;
        }
        proof {
            assert(registry.take(i as int) == registry);
        }
        report.append("\n");
        let index = index_grammars(&declarations);
        report.append(render_duplicates(&index).as_str());
        report
    }
}

/// The entry is the one that a first declaration among the first `n`
/// declarations makes.
pub open spec fn stands_for(
    declarations: Seq<(GrammarSourceView, Seq<char>)>,
    entry: (GrammarSourceView, Seq<Seq<char>>),
    n: int,
) -> bool {
    exists|at: int|
        0 <= at < n && #[trigger] is_first(declarations, at) && entry == entry_of(declarations, at)
}

/// What the index holds once the first `n` declarations have been looked at:
/// one entry for each first declaration among them, and no source twice.
proof fn lemma_index_prefix(declarations: Seq<(GrammarSourceView, Seq<char>)>, n: int)
    requires
        0 <= n <= declarations.len(),
    ensures
        ({
            let index = flat_map(
                range(declarations.len() as int).take(n),
                indexed(declarations),
            );
            &&& forall|k: int|
                0 <= k < index.len() ==> stands_for(declarations, #[trigger] index[k], n)
            &&& forall|at: int|
                0 <= at < n && is_first(declarations, at) ==> index.contains(
                    #[trigger] entry_of(declarations, at),
                )
            &&& forall|k1: int, k2: int|
                0 <= k1 < k2 < index.len() ==> (#[trigger] index[k1]).0 != (#[trigger] index[k2]).0
        }),
    decreases n,
{
    let places = range(declarations.len() as int);
    let part = indexed(declarations);
    let index = flat_map(places.take(n), part);
    if n == 0 {
        assert(places.take(0).len() == 0);
    } else {
        lemma_index_prefix(declarations, n - 1);
        lemma_flat_map_step(places, part, n - 1);
        let before = flat_map(places.take(n - 1), part);
        assert(places[n - 1] == n - 1);
        assert(index == before + part(n - 1));
        assert forall|k: int| 0 <= k < before.len() implies stands_for(
            declarations,
            #[trigger] before[k],
            n,
        ) by {
            assert(stands_for(declarations, before[k], n - 1));
            let at = choose|at: int|
                0 <= at < n - 1 && #[trigger] is_first(declarations, at) && before[k] == entry_of(
                    declarations,
                    at,
                );
            assert(0 <= at < n && is_first(declarations, at));
        }
        if is_first(declarations, n - 1) {
            let added = entry_of(declarations, n - 1);
            assert(index == before.push(added));
            assert(stands_for(declarations, added, n));
            assert forall|k: int| 0 <= k < index.len() implies stands_for(
                declarations,
                #[trigger] index[k],
                n,
            ) by {
                if k < before.len() {
                    assert(index[k] == before[k]);
                }
            }
            assert forall|at: int| 0 <= at < n && is_first(declarations, at) implies index.contains(
                #[trigger] entry_of(declarations, at),
            ) by {
                if at < n - 1 {
                    assert(before.contains(entry_of(declarations, at)));
                    let k = choose|k: int|
                        0 <= k < before.len() && before[k] == entry_of(declarations, at);
                    assert(index[k] == entry_of(declarations, at));
                } else {
                    assert(index[before.len() as int] == added);
                }
            }
            assert forall|k1: int, k2: int| 0 <= k1 < k2 < index.len() implies (
            #[trigger] index[k1]).0 != (#[trigger] index[k2]).0 by {
                assert(index[k1] == before[k1]);
                if k2 < before.len() {
                    assert(index[k2] == before[k2]);
                } else {
                    assert(stands_for(declarations, before[k1], n - 1));
                    let at = choose|at: int|
                        0 <= at < n - 1 && #[trigger] is_first(declarations, at) && before[k1]
                            == entry_of(declarations, at);
                    assert(declarations[at].0 != declarations[n - 1].0);
                }
            }
        } else {
            assert(index == before);
        }
    }
}

/// Every source that is declared has a first declaration.
proof fn lemma_first_declaration(declarations: Seq<(GrammarSourceView, Seq<char>)>, at: int) -> (first:
    int)
    requires
        0 <= at < declarations.len(),
    ensures
        0 <= first <= at,
        declarations[first].0 == declarations[at].0,
        is_first(declarations, first),
    decreases at,
{
    if is_first(declarations, at) {
        at
    } else {
        let earlier = choose|k: int|
            0 <= k < at && (#[trigger] declarations[k]).0 == declarations[at].0;
        lemma_first_declaration(declarations, earlier)
    }
}

/// The declarers of a source are the extensions that declare it, each of
/// them once.
pub proof fn lemma_declarers_are_listed_once(
    declarations: Seq<(GrammarSourceView, Seq<char>)>,
    source: GrammarSourceView,
)
    ensures
        declarers(declarations, source).no_duplicates(),
        forall|id: Seq<char>| #[trigger]
            declarers(declarations, source).contains(id) <==> declarations.contains((source, id)),
{
    let named = names(source);
    let kept = declarations.filter(named);
    let ids = kept.map_values(declarer());
    lemma_without_repeats(ids);
    assert forall|id: Seq<char>| #[trigger]
        declarers(declarations, source).contains(id) <==> declarations.contains(
            (source, id),
        ) by {
        if declarers(declarations, source).contains(id) {
            assert(ids.contains(id));
            let k = choose|k: int| 0 <= k < ids.len() && ids[k] == id;
            declarations.lemma_filter_pred(named, k);
            assert(named(kept[k]));
            assert(kept[k] == (source, id));
            assert(kept.contains(kept[k]));
            declarations.lemma_filter_contains_rev(named, kept[k]);
        }
        if declarations.contains((source, id)) {
            let j = choose|j: int| 0 <= j < declarations.len() && declarations[j] == (source, id);
            assert(named(declarations[j]));
            declarations.lemma_filter_contains(named, j);
            let k = choose|k: int| 0 <= k < kept.len() && kept[k] == declarations[j];
            assert(ids[k] == id);
            assert(ids.contains(id));
        }
    }
}

/// A source that a single extension declares is not reported, however many
/// of the extension's grammars have it: its entry in the index adds nothing
/// to the report of duplicates.
pub proof fn lemma_single_declarer_is_not_reported(
    declarations: Seq<(GrammarSourceView, Seq<char>)>,
    k: int,
)
    requires
        0 <= k < grammar_index(declarations).len(),
        forall|i: int, j: int|
            0 <= i < declarations.len() && 0 <= j < declarations.len() && (
            #[trigger] declarations[i]).0 == grammar_index(declarations)[k].0 && (
            #[trigger] declarations[j]).0 == grammar_index(declarations)[k].0
                ==> declarations[i].1 == declarations[j].1,
    ensures
        duplicate_lines()(grammar_index(declarations)[k]) == Seq::<char>::empty(),
{
    let n = declarations.len() as int;
    lemma_index_prefix(declarations, n);
    assert(range(n).take(n) == range(n));
    let entry = grammar_index(declarations)[k];
    assert(stands_for(declarations, entry, n));
    let source = entry.0;
    let ids = declarers(declarations, source);
    assert(entry.1 == ids);
    lemma_declarers_are_listed_once(declarations, source);
    if ids.len() > 1 {
        assert(ids.contains(ids[0]));
        assert(ids.contains(ids[1]));
        assert(declarations.contains((source, ids[0])));
        assert(declarations.contains((source, ids[1])));
        let i = choose|i: int| 0 <= i < declarations.len() && declarations[i] == (source, ids[0]);
        let j = choose|j: int| 0 <= j < declarations.len() && declarations[j] == (source, ids[1]);
        assert(declarations[i].1 == declarations[j].1);
        assert(ids[0] == ids[1]);
    }
}

/// A source that two different extensions declare is reported under one
/// shared entry: the index holds exactly one entry for the source, and that
/// entry lists every extension that declares the source, each once and the
/// two among them.
pub proof fn lemma_shared_source_has_one_entry(
    declarations: Seq<(GrammarSourceView, Seq<char>)>,
    i: int,
    j: int,
)
    requires
        0 <= i < declarations.len(),
        0 <= j < declarations.len(),
        declarations[i].0 == declarations[j].0,
        declarations[i].1 != declarations[j].1,
    ensures
        exists|k: int|
            0 <= k < grammar_index(declarations).len() && #[trigger] grammar_index(
                declarations,
            )[k] == (declarations[i].0, declarers(declarations, declarations[i].0))
                && grammar_index(declarations)[k].1.len() >= 2 && grammar_index(
                declarations,
            )[k].1.no_duplicates() && grammar_index(declarations)[k].1.contains(
                declarations[i].1,
            ) && grammar_index(declarations)[k].1.contains(declarations[j].1)
                && duplicate_lines()(grammar_index(declarations)[k]) == "Grammar: "@
                + declarations[i].0.text() + "\n"@ + flat_map(
                declarers(declarations, declarations[i].0),
                declarer_line(),
            ) && forall|other: int|
                0 <= other < grammar_index(declarations).len() && other != k ==> (
                #[trigger] grammar_index(declarations)[other]).0 != declarations[i].0,
{
    let n = declarations.len() as int;
    let index = grammar_index(declarations);
    let source = declarations[i].0;
    let ids = declarers(declarations, source);
    lemma_index_prefix(declarations, n);
    assert(range(n).take(n) == range(n));
    let first = lemma_first_declaration(declarations, i);
    lemma_declarers_are_listed_once(declarations, source);
    assert(declarations[i] == (source, declarations[i].1));
    assert(declarations[j] == (source, declarations[j].1));
    assert(declarations.contains((source, declarations[i].1)));
    assert(declarations.contains((source, declarations[j].1)));
    assert(ids.contains(declarations[i].1));
    assert(ids.contains(declarations[j].1));
    let a = choose|a: int| 0 <= a < ids.len() && ids[a] == declarations[i].1;
    let b = choose|b: int| 0 <= b < ids.len() && ids[b] == declarations[j].1;
    assert(a != b);
    assert(ids.len() >= 2);
    assert(index.contains(entry_of(declarations, first)));
    let k = choose|k: int| 0 <= k < index.len() && index[k] == entry_of(declarations, first);
    assert(index[k] == (source, ids));
    assert forall|other: int| 0 <= other < index.len() && other != k implies (
    #[trigger] index[other]).0 != source by {
        if other < k {
            assert(index[other].0 != index[k].0);
        } else {
            assert(index[k].0 != index[other].0);
        }
    }
}

} // verus!
