//! Reading the syntax of TOML and JSON texts into documents.
//!
//! The grammars themselves are the work of the `toml` and `serde_json_lenient`
//! crates. This module names what they make of a text and hands it on as a
//! [`Doc`].

use crate::document::{lemma_list_view, lemma_table_view, Doc, DocView, Number, NumberView};
use vstd::prelude::*;

verus! {

/// `toml::Value`, the tree that the `toml` crate reads a text into. Nothing
/// is known of a value but what [`toml_contents`] names.
#[verifier::external_type_specification]
#[verifier::external_body]
pub struct ExTomlValue(toml::Value);

/// `serde_json_lenient::Value`, the tree that the crate reads a text into.
/// Nothing is known of a value but what [`json_contents`] names.
#[verifier::external_type_specification]
#[verifier::external_body]
pub struct ExJsonValue(serde_json_lenient::Value);

/// What `toml::from_str` makes of `text`: the document that the text denotes,
/// or the message with which the text is rejected.
pub uninterp spec fn toml_document(text: Seq<char>) -> Result<DocView, Seq<char>>;

/// What `serde_json_lenient::from_str` makes of `text`: the document that the
/// text denotes, or the message with which the text is rejected.
pub uninterp spec fn json_document(text: Seq<char>) -> Result<DocView, Seq<char>>;

/// What `serde_json_lenient::from_str_lenient` makes of `text`: the document
/// that the text denotes, or the message with which the text is rejected.
pub uninterp spec fn lenient_json_document(text: Seq<char>) -> Result<DocView, Seq<char>>;

/// The document that a `toml::Value` holds.
pub uninterp spec fn toml_contents(value: toml::Value) -> DocView;

/// The document that a `serde_json_lenient::Value` holds.
pub uninterp spec fn json_contents(value: serde_json_lenient::Value) -> DocView;

/// Calls `toml::from_str` for a `toml::Value`. The result is the value whose
/// contents are the document named by [`toml_document`], or the printed form
/// of the error where that names a rejection.
#[verifier::external_body]
fn toml_from_str(text: &str) -> (r: Result<toml::Value, String>)
    ensures
        match r {
            Ok(value) => toml_document(text@) == Ok::<DocView, Seq<char>>(toml_contents(value)),
            Err(message) => toml_document(text@) == Err::<DocView, Seq<char>>(message@),
        },
{
    match toml::from_str::<toml::Value>(text) {
        Ok(value) => Ok(value),
        Err(error) => Err(error.to_string()),
    }
}

/// Calls `serde_json_lenient::from_str` for a `Value`. The result is the value
/// whose contents are the document named by [`json_document`], or the printed
/// form of the error where that names a rejection.
#[verifier::external_body]
fn json_from_str(text: &str) -> (r: Result<serde_json_lenient::Value, String>)
    ensures
        match r {
            Ok(value) => json_document(text@) == Ok::<DocView, Seq<char>>(json_contents(value)),
            Err(message) => json_document(text@) == Err::<DocView, Seq<char>>(message@),
        },
{
    match serde_json_lenient::from_str::<serde_json_lenient::Value>(text) {
        Ok(value) => Ok(value),
        Err(error) => Err(error.to_string()),
    }
}

/// Calls `serde_json_lenient::from_str_lenient` for a `Value`. The result is
/// the value whose contents are the document named by
/// [`lenient_json_document`], or the printed form of the error where that
/// names a rejection.
#[verifier::external_body]
fn json_from_str_lenient(text: &str) -> (r: Result<serde_json_lenient::Value, String>)
    ensures
        match r {
            Ok(value) => lenient_json_document(text@) == Ok::<DocView, Seq<char>>(
                json_contents(value),
            ),
            Err(message) => lenient_json_document(text@) == Err::<DocView, Seq<char>>(message@),
        },
{
    match serde_json_lenient::from_str_lenient::<serde_json_lenient::Value>(text) {
        Ok(value) => Ok(value),
        Err(error) => Err(error.to_string()),
    }
}

/// The number that a numeral is kept as: the whole number where there is
/// one, else the printed form.
spec fn numeral(whole: Option<i64>, printed: String) -> NumberView {
    match whole {
        Some(i) => NumberView::Integer(i as int),
        None => NumberView::Decimal(printed@),
    }
}

/// Keeps a numeral as a number.
fn number_of(whole: Option<i64>, printed: String) -> (n: Number)
    ensures
        n@ == numeral(whole, printed),
{
    match whole {
        Some(i) => Number::Integer(i),
        None => Number::Decimal(printed),
    }
}

/// One level of a value of an outside crate: what kind of document the
/// value holds, with the parts of a list or a table still in the outside
/// type.
enum Node<'a, V> {
    Null,
    Bool(bool),
    Number(Number),
    /// A number that the outside crate holds in a form of its own: as a
    /// whole number of 64 signed bits where it is one, and as it is printed.
    Numeral(Option<i64>, String),
    Text(String),
    Datetime(String),
    List(Vec<&'a V>),
    Table(Vec<(String, &'a V)>),
}

/// The document that one level of a `toml::Value` stands for.
spec fn toml_node(node: Node<toml::Value>) -> DocView {
    match node {
        Node::Null => DocView::Null,
        Node::Bool(b) => DocView::Bool(b),
        Node::Number(n) => DocView::Number(n@),
        Node::Numeral(whole, printed) => DocView::Number(numeral(whole, printed)),
        Node::Text(s) => DocView::Text(s@),
        Node::Datetime(s) => DocView::Datetime(s@),
        Node::List(items) => DocView::List(
            Seq::new(items@.len(), |i: int| toml_contents(*items@[i])),
        ),
        Node::Table(entries) => DocView::Table(
            Seq::new(entries@.len(), |i: int| (entries@[i].0@, toml_contents(*entries@[i].1))),
        ),
    }
}

/// The document that one level of a `serde_json_lenient::Value` stands for.
spec fn json_node(node: Node<serde_json_lenient::Value>) -> DocView {
    match node {
        Node::Null => DocView::Null,
        Node::Bool(b) => DocView::Bool(b),
        Node::Number(n) => DocView::Number(n@),
        Node::Numeral(whole, printed) => DocView::Number(numeral(whole, printed)),
        Node::Text(s) => DocView::Text(s@),
        Node::Datetime(s) => DocView::Datetime(s@),
        Node::List(items) => DocView::List(
            Seq::new(items@.len(), |i: int| json_contents(*items@[i])),
        ),
        Node::Table(entries) => DocView::Table(
            Seq::new(entries@.len(), |i: int| (entries@[i].0@, json_contents(*entries@[i].1))),
        ),
    }
}

/// Tells the variants of a `toml::Value` apart and hands out what the value
/// holds, one level deep: a scalar as it is, a float and a date-time in their
/// printed form, the items of an array and the entries of a table in the
/// order in which the crate's map walks them. The tables of a `toml::Value`
/// are maps, so no key occurs twice in any table of its contents.
#[verifier::external_body]
fn toml_open(value: &toml::Value) -> (node: Node<'_, toml::Value>)
    ensures
        toml_contents(*value) == toml_node(node),
        toml_node(node).wf(),
{
    match value {
        toml::Value::String(s) => Node::Text(s.clone()),
        toml::Value::Integer(i) => Node::Number(Number::Integer(*i)),
        toml::Value::Float(x) => Node::Number(Number::Decimal(x.to_string())),
        toml::Value::Boolean(b) => Node::Bool(*b),
        toml::Value::Datetime(d) => Node::Datetime(d.to_string()),
        toml::Value::Array(a) => Node::List(a.iter().collect()),
        toml::Value::Table(t) => Node::Table(t.iter().map(|(k, v)| (k.clone(), v)).collect()),
    }
}

/// Tells the variants of a `serde_json_lenient::Value` apart and hands out
/// what the value holds, one level deep: a scalar as it is, a number as
/// what `Number::as_i64` gives of it together with its printed form, the
/// items of an array and the entries of an object in the order in which the
/// crate's map walks them. The objects of a `Value` are maps, so no
/// key occurs twice in any table of its contents.
#[verifier::external_body]
fn json_open(value: &serde_json_lenient::Value) -> (node: Node<'_, serde_json_lenient::Value>)
    ensures
        json_contents(*value) == json_node(node),
        json_node(node).wf(),
{
    match value {
        serde_json_lenient::Value::Null => Node::Null,
        serde_json_lenient::Value::Bool(b) => Node::Bool(*b),
        serde_json_lenient::Value::Number(n) => Node::Numeral(n.as_i64(), n.to_string()),
        serde_json_lenient::Value::String(s) => Node::Text(s.clone()),
        serde_json_lenient::Value::Array(a) => Node::List(a.iter().collect()),
        serde_json_lenient::Value::Object(m) => Node::Table(
            m.iter().map(|(k, v)| (k.clone(), v)).collect(),
        ),
    }
}

/// Builds the document that a `toml::Value` holds.
fn toml_to_doc(value: &toml::Value) -> (doc: Doc)
    ensures
        doc@ == toml_contents(*value),
        doc.wf(),
    decreases toml_contents(*value),
{
    let ghost contents = toml_contents(*value);
    match toml_open(value) {
        Node::Null => Doc::Null,
        Node::Bool(b) => Doc::Bool(b),
        Node::Number(n) => Doc::Number(n),
        Node::Numeral(whole, printed) => Doc::Number(number_of(whole, printed)),
        Node::Text(s) => Doc::Text(s),
        Node::Datetime(s) => Doc::Datetime(s),
        Node::List(items) => {
            let mut docs: Vec<Doc> = Vec::new();
            let mut i: usize = 0;
            while i < items.len()
                invariant
                    i <= items.len(),
                    contents == toml_contents(*value),
                    contents is List,
                    contents->List_0.len() == items@.len(),
                    forall|k: int|
                        0 <= k < items@.len() ==> #[trigger] contents->List_0[k] == toml_contents(
                            *items@[k],
                        ),
                    docs@.len() == i,
                    forall|k: int| 0 <= k < i ==> (#[trigger] docs@[k])@ == contents->List_0[k],
                decreases items.len() - i,
            {
                proof {
                    assert(decreases_to!(contents => contents->List_0));
                    assert(decreases_to!(contents->List_0 => contents->List_0[i as int]));
                }
                docs.push(toml_to_doc(items[i]));
                i += 1;
            }
            proof {
                lemma_list_view(docs);
                assert(Doc::List(docs)@->List_0 =~= contents->List_0);
            }
            Doc::List(docs)
        },
        Node::Table(entries) => {
            let mut docs: Vec<(String, Doc)> = Vec::new();
            let mut i: usize = 0;
            while i < entries.len()
                invariant
                    i <= entries.len(),
                    contents == toml_contents(*value),
                    contents is Table,
                    contents->Table_0.len() == entries@.len(),
                    forall|k: int|
                        0 <= k < entries@.len() ==> #[trigger] contents->Table_0[k] == (
                            entries@[k].0@,
                            toml_contents(*entries@[k].1),
                        ),
                    docs@.len() == i,
                    forall|k: int|
                        0 <= k < i ==> (#[trigger] docs@[k]).0@ == contents->Table_0[k].0
                            && docs@[k].1@ == contents->Table_0[k].1,
                decreases entries.len() - i,
            {
                proof {
                    assert(decreases_to!(contents => contents->Table_0));
                    assert(decreases_to!(contents->Table_0 => contents->Table_0[i as int]));
                    assert(decreases_to!(contents->Table_0[i as int] => contents->Table_0[i as int].1));
                }
                docs.push((entries[i].0.clone(), toml_to_doc(entries[i].1)));
                i += 1;
            }
            proof {
                lemma_table_view(docs);
                assert(Doc::Table(docs)@->Table_0 =~= contents->Table_0);
            }
            Doc::Table(docs)
        },
    }
}

/// Builds the document that a `serde_json_lenient::Value` holds.
fn json_to_doc(value: &serde_json_lenient::Value) -> (doc: Doc)
    ensures
        doc@ == json_contents(*value),
        doc.wf(),
    decreases json_contents(*value),
{
    let ghost contents = json_contents(*value);
    match json_open(value) {
        Node::Null => Doc::Null,
        Node::Bool(b) => Doc::Bool(b),
        Node::Number(n) => Doc::Number(n),
        Node::Numeral(whole, printed) => Doc::Number(number_of(whole, printed)),
        Node::Text(s) => Doc::Text(s),
        Node::Datetime(s) => Doc::Datetime(s),
        Node::List(items) => {
            let mut docs: Vec<Doc> = Vec::new();
            let mut i: usize = 0;
            while i < items.len()
                invariant
                    i <= items.len(),
                    contents == json_contents(*value),
                    contents is List,
                    contents->List_0.len() == items@.len(),
                    forall|k: int|
                        0 <= k < items@.len() ==> #[trigger] contents->List_0[k] == json_contents(
                            *items@[k],
                        ),
                    docs@.len() == i,
                    forall|k: int| 0 <= k < i ==> (#[trigger] docs@[k])@ == contents->List_0[k],
                decreases items.len() - i,
            {
                proof {
                    assert(decreases_to!(contents => contents->List_0));
                    assert(decreases_to!(contents->List_0 => contents->List_0[i as int]));
                }
                docs.push(json_to_doc(items[i]));
                i += 1;
            }
            proof {
                lemma_list_view(docs);
                assert(Doc::List(docs)@->List_0 =~= contents->List_0);
            }
            Doc::List(docs)
        },
        Node::Table(entries) => {
            let mut docs: Vec<(String, Doc)> = Vec::new();
            let mut i: usize = 0;
            while i < entries.len()
                invariant
                    i <= entries.len(),
                    contents == json_contents(*value),
                    contents is Table,
                    contents->Table_0.len() == entries@.len(),
                    forall|k: int|
                        0 <= k < entries@.len() ==> #[trigger] contents->Table_0[k] == (
                            entries@[k].0@,
                            json_contents(*entries@[k].1),
                        ),
                    docs@.len() == i,
                    forall|k: int|
                        0 <= k < i ==> (#[trigger] docs@[k]).0@ == contents->Table_0[k].0
                            && docs@[k].1@ == contents->Table_0[k].1,
                decreases entries.len() - i,
            {
                proof {
                    assert(decreases_to!(contents => contents->Table_0));
                    assert(decreases_to!(contents->Table_0 => contents->Table_0[i as int]));
                    assert(decreases_to!(contents->Table_0[i as int] => contents->Table_0[i as int].1));
                }
                docs.push((entries[i].0.clone(), json_to_doc(entries[i].1)));
                i += 1;
            }
            proof {
                lemma_table_view(docs);
                assert(Doc::Table(docs)@->Table_0 =~= contents->Table_0);
            }
            Doc::Table(docs)
        },
    }
}

/// Reads a TOML text. Returns the document that [`toml_document`] names for
/// the text, well formed, or the message with which the text is rejected.
pub fn parse_toml(text: &str) -> (r: Result<Doc, String>)
    ensures
        match toml_document(text@) {
            Ok(d) => r is Ok && r->Ok_0@ == d && r->Ok_0.wf(),
            Err(message) => r is Err && r->Err_0@ == message,
        },
{
    match toml_from_str(text) {
        Ok(value) => Ok(toml_to_doc(&value)),
        Err(message) => Err(message),
    }
}

/// Reads a JSON text, with the tolerance for comments and trailing commas
/// that manifests are read with. Returns the document that [`json_document`]
/// names for the text, well formed, or the message with which the text is
/// rejected.
pub fn parse_json(text: &str) -> (r: Result<Doc, String>)
    ensures
        match json_document(text@) {
            Ok(d) => r is Ok && r->Ok_0@ == d && r->Ok_0.wf(),
            Err(message) => r is Err && r->Err_0@ == message,
        },
{
    match json_from_str(text) {
        Ok(value) => Ok(json_to_doc(&value)),
        Err(message) => Err(message),
    }
}

/// Reads a JSON text with every leniency switched on, as theme files are
/// read. Returns the document that [`lenient_json_document`] names for the
/// text, well formed, or the message with which the text is rejected.
pub fn parse_json_lenient(text: &str) -> (r: Result<Doc, String>)
    ensures
        match lenient_json_document(text@) {
            Ok(d) => r is Ok && r->Ok_0@ == d && r->Ok_0.wf(),
            Err(message) => r is Err && r->Err_0@ == message,
        },
{
    match json_from_str_lenient(text) {
        Ok(value) => Ok(json_to_doc(&value)),
        Err(message) => Err(message),
    }
}

} // verus!
