//! Theme files: the documents that a theme-based survey looks into, and how
//! the theme files of one extension are loaded.

use crate::document::{lemma_list_view, Doc, DocView};
use crate::fold::{flat_map, lemma_flat_map_concat, lemma_flat_map_one, lemma_flat_map_step};
use crate::shape::{
    lemma_try_map_fails, lemma_try_map_step, read_text, text_at, try_map, ShapeError,
    ShapeErrorView,
};
use crate::syntax::{lenient_json_document, parse_json_lenient};
use crate::text::{ends_with, has_suffix};
use vstd::prelude::*;
use vstd::string::*;

verus! {

/// One named theme definition: its style maps the name of a property to any
/// document.
#[derive(Debug, PartialEq, Eq)]
pub struct Theme {
    pub name: String,
    pub style: Doc,
}

/// The theme definitions of one theme file, in the file's order.
#[derive(Debug, PartialEq, Eq)]
pub struct ThemeFamily {
    pub themes: Vec<Theme>,
}

pub ghost struct ThemeView {
    pub name: Seq<char>,
    pub style: DocView,
}

impl View for Theme {
    type V = ThemeView;

    open spec fn view(&self) -> ThemeView {
        ThemeView { name: self.name@, style: self.style@ }
    }
}

/// The views of a sequence of themes.
pub open spec fn theme_views(themes: Seq<Theme>) -> Seq<ThemeView> {
    Seq::new(themes.len(), |i: int| themes[i]@)
}

impl View for ThemeFamily {
    type V = Seq<ThemeView>;

    open spec fn view(&self) -> Seq<ThemeView> {
        theme_views(self.themes@)
    }
}

/// The theme that a document denotes: a table with the text `name` and, under
/// `style`, any document.
pub open spec fn theme_of(doc: DocView) -> Result<ThemeView, ShapeErrorView> {
    if !(doc is Table) {
        Err(ShapeErrorView::Mismatch("themes"@))
    } else if text_at(doc, "name"@) is Err {
        Err(text_at(doc, "name"@)->Err_0)
    } else if doc.get("style"@) is None {
        Err(ShapeErrorView::Missing("style"@))
    } else {
        Ok(ThemeView { name: text_at(doc, "name"@)->Ok_0, style: doc.get("style"@)->Some_0 })
    }
}

/// The themes that the document of a theme file denotes: a table with the
/// list `themes`, every item of which is a theme.
pub open spec fn family_of(doc: DocView) -> Result<Seq<ThemeView>, ShapeErrorView> {
    if !(doc is Table) {
        Err(ShapeErrorView::NotATable)
    } else {
        match doc.get("themes"@) {
            None => Err(ShapeErrorView::Missing("themes"@)),
            Some(DocView::List(items)) => try_map(items, |item: DocView| theme_of(item)),
            Some(_) => Err(ShapeErrorView::Mismatch("themes"@)),
        }
    }
}

/// The themes that the text of a theme file denotes, or the reason, in
/// words, why the file counts as malformed.
pub open spec fn parsed_family(text: Seq<char>) -> Result<Seq<ThemeView>, Seq<char>> {
    match lenient_json_document(text) {
        Err(message) => Err(message),
        Ok(doc) => match family_of(doc) {
            Ok(themes) => Ok(themes),
            Err(e) => Err(e.message()),
        },
    }
}

fn read_theme(doc: &Doc) -> (r: Result<Theme, ShapeError>)
    ensures
        match r {
            Ok(theme) => theme_of(doc@) == Ok::<ThemeView, ShapeErrorView>(theme@),
            Err(e) => theme_of(doc@) == Err::<ThemeView, ShapeErrorView>(e@),
        },
{
    if doc.as_table().is_none() {
        return Err(ShapeError::Mismatch("themes".to_owned()));
    }
    let name = read_text(doc, "name")?;
    let key = "style".to_owned();
    match doc.get(&key) {
        None => Err(ShapeError::Missing(key)),
        Some(style) => Ok(Theme { name, style: style.duplicate() }),
    }
}

impl ThemeFamily {
    /// Reads the themes of a theme file from its document.
    pub fn from_doc(doc: &Doc) -> (r: Result<ThemeFamily, ShapeError>)
        ensures
            match r {
                Ok(family) => family_of(doc@) == Ok::<Seq<ThemeView>, ShapeErrorView>(family@),
                Err(e) => family_of(doc@) == Err::<Seq<ThemeView>, ShapeErrorView>(e@),
            },
    {
        if doc.as_table().is_none() {
            return Err(ShapeError::NotATable);
        }
        let key = "themes".to_owned();
        match doc.get(&key) {
            None => Err(ShapeError::Missing(key)),
            Some(Doc::List(items)) => {
                let ghost list = Doc::List(*items)@->List_0;
                let ghost f = |item: DocView| theme_of(item);
                proof {
                    lemma_list_view(*items);
                    assert(list.take(0) == Seq::<DocView>::empty());
                }
                let mut themes: Vec<Theme> = Vec::new();
                assert(theme_views(themes@) == Seq::<ThemeView>::empty());
                let mut i: usize = 0;
                while i < items.len()
                    invariant
                        i <= items.len(),
                        f == |item: DocView| theme_of(item),
                        doc@ is Table,
                        doc@.get("themes"@) == Some(DocView::List(list)),
                        list.len() == items@.len(),
                        forall|k: int| 0 <= k < items@.len() ==> #[trigger] list[k] == items@[k]@,
                        try_map(list.take(i as int), f) == Ok::<Seq<ThemeView>, ShapeErrorView>(
                            theme_views(themes@),
                        ),
                    decreases items.len() - i,
                {
                    proof {
                        lemma_try_map_step(list, f, i as int);
                    }
                    match read_theme(&items[i]) {
                        Ok(theme) => {
                            let ghost before = theme_views(themes@);
                            themes.push(theme);
                            assert(theme_views(themes@) == before.push(theme@));
                        },
                        Err(e) => {
                            proof {
                                lemma_try_map_fails(list, f, i + 1);
                            }
                            return Err(e);
                        },
                    }
                    i += 1;
                }
                assert(list.take(i as int) == list);
                Ok(ThemeFamily { themes })
            },
            Some(_) => Err(ShapeError::Mismatch(key)),
        }
    }

    /// Reads the themes of a theme file from its text.
    pub fn parse(text: &str) -> (r: Result<ThemeFamily, String>)
        ensures
            match r {
                Ok(family) => parsed_family(text@) == Ok::<Seq<ThemeView>, Seq<char>>(family@),
                Err(message) => parsed_family(text@) == Err::<Seq<ThemeView>, Seq<char>>(
                    message@,
                ),
            },
    {
        match parse_json_lenient(text) {
            Err(message) => Err(message),
            Ok(doc) => match ThemeFamily::from_doc(&doc) {
                Ok(family) => Ok(family),
                Err(e) => Err(e.message()),
            },
        }
    }
}

/// One file of a themes directory: its path and its text.
#[derive(Clone, Debug, PartialEq, Eq)]
pub struct ThemeFile {
    pub path: String,
    pub text: String,
}

/// A theme file that could not be read as one, with the reason in words.
#[derive(Clone, Debug, PartialEq, Eq)]
pub struct ThemeFailure {
    pub path: String,
    pub message: String,
}

pub ghost struct ThemeFileView {
    pub path: Seq<char>,
    pub text: Seq<char>,
}

pub ghost struct ThemeFailureView {
    pub path: Seq<char>,
    pub message: Seq<char>,
}

impl View for ThemeFile {
    type V = ThemeFileView;

    open spec fn view(&self) -> ThemeFileView {
        ThemeFileView { path: self.path@, text: self.text@ }
    }
}

impl View for ThemeFailure {
    type V = ThemeFailureView;

    open spec fn view(&self) -> ThemeFailureView {
        ThemeFailureView { path: self.path@, message: self.message@ }
    }
}

/// The views of a sequence of theme files.
pub open spec fn file_views(files: Seq<ThemeFile>) -> Seq<ThemeFileView> {
    Seq::new(files.len(), |i: int| files[i]@)
}

/// The views of a sequence of failures.
pub open spec fn failure_views(failures: Seq<ThemeFailure>) -> Seq<ThemeFailureView> {
    Seq::new(failures.len(), |i: int| failures[i]@)
}

/// What loading the theme files of one extension gives: the themes of the
/// files that could be read, and a failure for each file that could not.
#[derive(Debug, PartialEq, Eq)]
pub struct LoadedThemes {
    pub themes: Vec<Theme>,
    pub failures: Vec<ThemeFailure>,
}

/// A path names a theme file where its file name ends in `.json` after at
/// least one other character.
pub open spec fn is_theme_path(path: Seq<char>) -> bool {
    ends_with(path, ".json"@) && path.len() > 5 && path[path.len() - 6] != '/'
}

/// The themes that one file adds: those that its text denotes, where it is
/// a theme file that can be read; none otherwise.
pub open spec fn themes_in(file: ThemeFileView) -> Seq<ThemeView> {
    if is_theme_path(file.path) && parsed_family(file.text) is Ok {
        parsed_family(file.text)->Ok_0
    } else {
        Seq::empty()
    }
}

/// The failure that one file adds: one where it is a theme file that cannot
/// be read; none otherwise.
pub open spec fn failures_in(file: ThemeFileView) -> Seq<ThemeFailureView> {
    if is_theme_path(file.path) && parsed_family(file.text) is Err {
        seq![ThemeFailureView { path: file.path, message: parsed_family(file.text)->Err_0 }]
    } else {
        Seq::empty()
    }
}

/// The themes of all files that can be read, file by file and within a file
/// in its own order.
pub open spec fn loaded_themes(files: Seq<ThemeFileView>) -> Seq<ThemeView> {
    flat_map(files, |file: ThemeFileView| themes_in(file))
}

/// The failures of all files that cannot be read, in the order of the files.
pub open spec fn load_failures(files: Seq<ThemeFileView>) -> Seq<ThemeFailureView> {
    flat_map(files, |file: ThemeFileView| failures_in(file))
}

/// Whether a path names a theme file.
pub fn is_theme_file(path: &str) -> (r: bool)
    ensures
        r == is_theme_path(path@),
{
    proof {
        reveal_strlit(".json");
    }
    if !has_suffix(path, ".json") {
        return false;
    }
    let n = path.unicode_len();
    n > 5 && path.get_char(n - 6) != '/'
}

/// Loads the theme files of one extension. A file that cannot be read adds a
/// failure and nothing else: the files before and after it are loaded as if
/// it were not there. A file whose path does not name a theme file is passed
/// over.
pub fn load_themes(files: &Vec<ThemeFile>) -> (r: LoadedThemes)
    ensures
        theme_views(r.themes@) == loaded_themes(file_views(files@)),
        failure_views(r.failures@) == load_failures(file_views(files@)),
{
    let ghost all = file_views(files@);
    let ghost themes_of = |file: ThemeFileView| themes_in(file);
    let ghost failures_of = |file: ThemeFileView| failures_in(file);
    let mut themes: Vec<Theme> = Vec::new();
    let mut failures: Vec<ThemeFailure> = Vec::new();
    proof {
        assert(all.take(0) == Seq::<ThemeFileView>::empty());
        assert(theme_views(themes@) == Seq::<ThemeView>::empty());
        assert(failure_views(failures@) == Seq::<ThemeFailureView>::empty());
    }
    let mut i: usize = 0;
    while i < files.len()
        invariant
            i <= files.len(),
            all == file_views(files@),
            themes_of == |file: ThemeFileView| themes_in(file),
            failures_of == |file: ThemeFileView| failures_in(file),
            theme_views(themes@) == flat_map(all.take(i as int), themes_of),
            failure_views(failures@) == flat_map(all.take(i as int), failures_of),
        decreases files.len() - i,
    {
        proof {
            lemma_flat_map_step(all, themes_of, i as int);
            lemma_flat_map_step(all, failures_of, i as int);
        }
        let file = &files[i];
        if is_theme_file(file.path.as_str()) {
            match ThemeFamily::parse(file.text.as_str()) {
                Ok(family) => {
                    let ghost before = theme_views(themes@);
                    let ghost added = family@;
                    let mut found = family.themes;
                    themes.append(&mut found);
                    assert(theme_views(themes@) == before + added);
                },
                Err(message) => {
                    let ghost before = failure_views(failures@);
                    let failure = ThemeFailure { path: file.path.clone(), message };
                    failures.push(failure);
                    assert(failure_views(failures@) == before + seq![failure@]);
                },
            }
        }
        i += 1;
    }
    proof {
        assert(all.take(i as int) == all);
    }
    LoadedThemes { themes, failures }
}

/// Per-file isolation: the themes of a list of files are those of the files
/// before a given file, those of that file and those of the files after it;
/// and likewise the failures.
pub proof fn lemma_load_splits(
    before: Seq<ThemeFileView>,
    file: ThemeFileView,
    after: Seq<ThemeFileView>,
)
    ensures
        loaded_themes(before + seq![file] + after) == loaded_themes(before) + themes_in(file)
            + loaded_themes(after),
        load_failures(before + seq![file] + after) == load_failures(before) + failures_in(file)
            + load_failures(after),
{
    let themes_of = |file: ThemeFileView| themes_in(file);
    let failures_of = |file: ThemeFileView| failures_in(file);
    lemma_flat_map_concat(before + seq![file], after, themes_of);
    lemma_flat_map_concat(before, seq![file], themes_of);
    lemma_flat_map_concat(before + seq![file], after, failures_of);
    lemma_flat_map_concat(before, seq![file], failures_of);
    lemma_flat_map_one(file, themes_of);
    lemma_flat_map_one(file, failures_of);
}

/// Per-file isolation: a malformed theme file among the files of an
/// extension adds exactly one failure, between those of the files before it
/// and those of the files after it, and changes nothing in the themes that
/// are loaded from the other files.
pub proof fn lemma_malformed_file_is_isolated(
    before: Seq<ThemeFileView>,
    file: ThemeFileView,
    after: Seq<ThemeFileView>,
)
    requires
        is_theme_path(file.path),
        parsed_family(file.text) is Err,
    ensures
        loaded_themes(before + seq![file] + after) == loaded_themes(before + after),
        load_failures(before + seq![file] + after) == load_failures(before) + seq![
            ThemeFailureView { path: file.path, message: parsed_family(file.text)->Err_0 },
        ] + load_failures(after),
{
    lemma_load_splits(before, file, after);
    lemma_flat_map_concat(before, after, |file: ThemeFileView| themes_in(file));
    assert(loaded_themes(before) + themes_in(file) + loaded_themes(after) == loaded_themes(before)
        + loaded_themes(after));
}

} // verus!
