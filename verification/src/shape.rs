//! Reading typed fields out of a document table: the building blocks of the
//! manifest, registry and theme formats.

use crate::document::{lemma_list_view, lemma_table_view, views, Doc, DocView, Number, NumberView};
use crate::order::{ascending, in_name_order, put_record};
use vstd::prelude::*;
use vstd::string::*;

verus! {

/// Why a document does not have the structure that a format asks for.
#[derive(Clone, Debug, PartialEq, Eq)]
pub enum ShapeError {
    /// A table was expected at the top of the document.
    NotATable,
    /// A required key is absent from its table.
    Missing(String),
    /// The value under a key has another type than the format asks for.
    Mismatch(String),
    /// A value stands under both of the keys of which a table may hold one.
    /// Holds the first of the two keys.
    Duplicate(String),
}

/// The mathematical value of a [`ShapeError`].
pub ghost enum ShapeErrorView {
    NotATable,
    Missing(Seq<char>),
    Mismatch(Seq<char>),
    Duplicate(Seq<char>),
}

impl View for ShapeError {
    type V = ShapeErrorView;

    open spec fn view(&self) -> ShapeErrorView {
        match self {
            ShapeError::NotATable => ShapeErrorView::NotATable,
            ShapeError::Missing(key) => ShapeErrorView::Missing(key@),
            ShapeError::Mismatch(key) => ShapeErrorView::Mismatch(key@),
            ShapeError::Duplicate(key) => ShapeErrorView::Duplicate(key@),
        }
    }
}

impl ShapeErrorView {
    /// The error in words.
    pub open spec fn message(self) -> Seq<char> {
        match self {
            ShapeErrorView::NotATable => "expected a table"@,
            ShapeErrorView::Missing(key) => "missing field `"@ + key + "`"@,
            ShapeErrorView::Mismatch(key) => "invalid type for field `"@ + key + "`"@,
            ShapeErrorView::Duplicate(key) => "duplicate field `"@ + key + "`"@,
        }
    }
}

impl ShapeError {
    /// The error in words.
    pub fn message(&self) -> (r: String)
        ensures
            r@ == self@.message(),
    {
        match self {
            ShapeError::NotATable => "expected a table".to_owned(),
            ShapeError::Missing(key) => {
                let mut text = "missing field `".to_owned();
                text.append(key.as_str());
                text.append("`");
                text
            },
            ShapeError::Mismatch(key) => {
                let mut text = "invalid type for field `".to_owned();
                text.append(key.as_str());
                text.append("`");
                text
            },
            ShapeError::Duplicate(key) => {
                let mut text = "duplicate field `".to_owned();
                text.append(key.as_str());
                text.append("`");
                text
            },
        }
    }
}

/// The results of `f` on the items, in order, or the error of the first item
/// on which `f` fails.
pub open spec fn try_map<A, B>(items: Seq<A>, f: spec_fn(A) -> Result<B, ShapeErrorView>) -> Result<
    Seq<B>,
    ShapeErrorView,
>
    decreases items.len(),
{
    if items.len() == 0 {
        Ok(Seq::empty())
    } else {
        match try_map(items.drop_last(), f) {
            Err(e) => Err(e),
            Ok(done) => match f(items.last()) {
                Err(e) => Err(e),
                Ok(b) => Ok(done.push(b)),
            },
        }
    }
}

/// An error among the first `k` items is the error of the whole sequence.
pub proof fn lemma_try_map_fails<A, B>(
    items: Seq<A>,
    f: spec_fn(A) -> Result<B, ShapeErrorView>,
    k: int,
)
    requires
        0 <= k <= items.len(),
        try_map(items.take(k), f) is Err,
    ensures
        try_map(items, f) == try_map(items.take(k), f),
    decreases items.len() - k,
{
    if k < items.len() {
        assert(items.take(k + 1).drop_last() == items.take(k));
        lemma_try_map_fails(items, f, k + 1);
    } else {
        assert(items.take(k) == items);
    }
}

/// One more item: how the result for the first `k + 1` items follows from
/// that for the first `k`.
pub proof fn lemma_try_map_step<A, B>(
    items: Seq<A>,
    f: spec_fn(A) -> Result<B, ShapeErrorView>,
    k: int,
)
    requires
        0 <= k < items.len(),
        try_map(items.take(k), f) is Ok,
    ensures
        try_map(items.take(k + 1), f) == match f(items[k]) {
            Err(e) => Err::<Seq<B>, ShapeErrorView>(e),
            Ok(b) => Ok::<Seq<B>, ShapeErrorView>(try_map(items.take(k), f)->Ok_0.push(b)),
        },
{
    assert(items.take(k + 1).drop_last() == items.take(k));
    assert(items.take(k + 1).last() == items[k]);
}

/// The text under a required key.
pub open spec fn text_at(table: DocView, key: Seq<char>) -> Result<Seq<char>, ShapeErrorView> {
    match table.get(key) {
        None => Err(ShapeErrorView::Missing(key)),
        Some(DocView::Text(s)) => Ok(s),
        Some(_) => Err(ShapeErrorView::Mismatch(key)),
    }
}

/// The text under an optional key: none where the key is absent or holds
/// null.
pub open spec fn opt_text_at(table: DocView, key: Seq<char>) -> Result<
    Option<Seq<char>>,
    ShapeErrorView,
> {
    match table.get(key) {
        None => Ok(None),
        Some(DocView::Null) => Ok(None),
        Some(DocView::Text(s)) => Ok(Some(s)),
        Some(_) => Err(ShapeErrorView::Mismatch(key)),
    }
}

/// The truth value under a required key.
pub open spec fn bool_at(table: DocView, key: Seq<char>) -> Result<bool, ShapeErrorView> {
    match table.get(key) {
        None => Err(ShapeErrorView::Missing(key)),
        Some(DocView::Bool(b)) => Ok(b),
        Some(_) => Err(ShapeErrorView::Mismatch(key)),
    }
}

/// The whole number under a required key, where it fits in 32 signed bits.
pub open spec fn i32_at(table: DocView, key: Seq<char>) -> Result<i32, ShapeErrorView> {
    match table.get(key) {
        None => Err(ShapeErrorView::Missing(key)),
        Some(DocView::Number(NumberView::Integer(i))) => if i32::MIN <= i <= i32::MAX {
            Ok(i as i32)
        } else {
            Err(ShapeErrorView::Mismatch(key))
        },
        Some(_) => Err(ShapeErrorView::Mismatch(key)),
    }
}

/// Every item is a text.
pub open spec fn all_texts(items: Seq<DocView>) -> bool {
    forall|i: int| 0 <= i < items.len() ==> #[trigger] items[i] is Text
}

/// The texts that the items are.
pub open spec fn texts_of(items: Seq<DocView>) -> Seq<Seq<char>> {
    Seq::new(items.len(), |i: int| items[i]->Text_0)
}

/// The list of texts under a key: empty where the key is absent.
pub open spec fn texts_at(table: DocView, key: Seq<char>) -> Result<
    Seq<Seq<char>>,
    ShapeErrorView,
> {
    match table.get(key) {
        None => Ok(Seq::empty()),
        Some(DocView::List(items)) => if all_texts(items) {
            Ok(texts_of(items))
        } else {
            Err(ShapeErrorView::Mismatch(key))
        },
        Some(_) => Err(ShapeErrorView::Mismatch(key)),
    }
}

/// Reads the text under a required key.
pub fn read_text(table: &Doc, key: &str) -> (r: Result<String, ShapeError>)
    ensures
        match r {
            Ok(s) => text_at(table@, key@) == Ok::<Seq<char>, ShapeErrorView>(s@),
            Err(e) => text_at(table@, key@) == Err::<Seq<char>, ShapeErrorView>(e@),
        },
{
    let key = key.to_owned();
    match table.get(&key) {
        None => Err(ShapeError::Missing(key)),
        Some(Doc::Text(s)) => Ok(s.clone()),
        Some(_) => Err(ShapeError::Mismatch(key)),
    }
}

/// Reads the text under an optional key.
pub fn read_opt_text(table: &Doc, key: &str) -> (r: Result<Option<String>, ShapeError>)
    ensures
        match r {
            Ok(Some(s)) => opt_text_at(table@, key@) == Ok::<Option<Seq<char>>, ShapeErrorView>(
                Some(s@),
            ),
            Ok(None) => opt_text_at(table@, key@) == Ok::<Option<Seq<char>>, ShapeErrorView>(None),
            Err(e) => opt_text_at(table@, key@) == Err::<Option<Seq<char>>, ShapeErrorView>(e@),
        },
{
    let key = key.to_owned();
    match table.get(&key) {
        None => Ok(None),
        Some(Doc::Null) => Ok(None),
        Some(Doc::Text(s)) => Ok(Some(s.clone())),
        Some(_) => Err(ShapeError::Mismatch(key)),
    }
}

/// Reads the truth value under a required key.
pub fn read_bool(table: &Doc, key: &str) -> (r: Result<bool, ShapeError>)
    ensures
        match r {
            Ok(b) => bool_at(table@, key@) == Ok::<bool, ShapeErrorView>(b),
            Err(e) => bool_at(table@, key@) == Err::<bool, ShapeErrorView>(e@),
        },
{
    let key = key.to_owned();
    match table.get(&key) {
        None => Err(ShapeError::Missing(key)),
        Some(Doc::Bool(b)) => Ok(*b),
        Some(_) => Err(ShapeError::Mismatch(key)),
    }
}

/// Reads the whole number under a required key.
pub fn read_i32(table: &Doc, key: &str) -> (r: Result<i32, ShapeError>)
    ensures
        match r {
            Ok(i) => i32_at(table@, key@) == Ok::<i32, ShapeErrorView>(i),
            Err(e) => i32_at(table@, key@) == Err::<i32, ShapeErrorView>(e@),
        },
{
    let key = key.to_owned();
    match table.get(&key) {
        None => Err(ShapeError::Missing(key)),
        Some(Doc::Number(Number::Integer(i))) => {
            if -0x8000_0000 <= *i && *i <= 0x7fff_ffff {
                Ok(*i as i32)
            } else {
                Err(ShapeError::Mismatch(key))
            }
        },
        Some(_) => Err(ShapeError::Mismatch(key)),
    }
}

/// Reads the list of texts under a key.
pub fn read_texts(table: &Doc, key: &str) -> (r: Result<Vec<String>, ShapeError>)
    ensures
        match r {
            Ok(v) => texts_at(table@, key@) == Ok::<Seq<Seq<char>>, ShapeErrorView>(
                views(v@),
            ),
            Err(e) => texts_at(table@, key@) == Err::<Seq<Seq<char>>, ShapeErrorView>(e@),
        },
{
    let name = key.to_owned();
    match table.get(&name) {
        None => {
            let v: Vec<String> = Vec::new();
            assert(views(v@) == Seq::<Seq<char>>::empty());
            Ok(v)
        },
        Some(Doc::List(items)) => {
            let ghost list = Doc::List(*items)@->List_0;
            proof {
                lemma_list_view(*items);
            }
            let mut v: Vec<String> = Vec::new();
            let mut i: usize = 0;
            while i < items.len()
                invariant
                    i <= items.len(),
                    name@ == key@,
                    table@.get(key@) == Some(DocView::List(list)),
                    list.len() == items@.len(),
                    forall|k: int| 0 <= k < items@.len() ==> #[trigger] list[k] == items@[k]@,
                    v@.len() == i,
                    forall|k: int| 0 <= k < i ==> #[trigger] list[k] == DocView::Text(v@[k]@),
                decreases items.len() - i,
            {
                match &items[i] {
                    Doc::Text(s) => {
                        v.push(s.clone());
                    },
                    _ => {
                        assert(!(list[i as int] is Text));
                        return Err(ShapeError::Mismatch(name));
                    },
                }
                i += 1;
            }
            assert(views(v@) == texts_of(list));
            Ok(v)
        },
        Some(_) => Err(ShapeError::Mismatch(name)),
    }
}

/// The key under which a value is read that may stand under either of two
/// keys: the second where the table has it and lacks the first, else the
/// first.
pub open spec fn either(table: DocView, key: Seq<char>, other: Seq<char>) -> Seq<char> {
    if table.get(key) is None && table.get(other) is Some {
        other
    } else {
        key
    }
}

/// Picks the key under which a value stands that may stand under either of
/// two keys.
pub fn pick<'a>(table: &Doc, key: &'a str, other: &'a str) -> (r: &'a str)
    ensures
        r@ == either(table@, key@, other@),
{
    let first = key.to_owned();
    let second = other.to_owned();
    if table.get(&first).is_none() && table.get(&second).is_some() {
        other
    } else {
        key
    }
}

/// A record that a table holds under a name: how it is read from the
/// document under that name.
pub trait Record: View + Sized {
    /// The record that the document under `name` denotes, or why it denotes
    /// none.
    spec fn decode(name: Seq<char>, doc: DocView) -> Result<Self::V, ShapeErrorView>;

    /// Reads the record from the document under `name`.
    fn read(name: &String, doc: &Doc) -> (r: Result<Self, ShapeError>)
        ensures
            match r {
                Ok(record) => Self::decode(name@, doc@) == Ok::<Self::V, ShapeErrorView>(record@),
                Err(e) => Self::decode(name@, doc@) == Err::<Self::V, ShapeErrorView>(e@),
            },
    ;
}

/// The views of a sequence of named records.
pub open spec fn named_views<T: View>(records: Seq<(String, T)>) -> Seq<(Seq<char>, T::V)> {
    Seq::new(records.len(), |i: int| (records[i].0@, records[i].1@))
}

/// Reads one entry of a table of named records.
pub open spec fn decode_entry<T: Record>() -> spec_fn((Seq<char>, DocView)) -> Result<
    (Seq<char>, T::V),
    ShapeErrorView,
> {
    |entry: (Seq<char>, DocView)|
        match T::decode(entry.0, entry.1) {
            Ok(record) => Ok((entry.0, record)),
            Err(e) => Err(e),
        }
}

/// The named records that the entries of a table denote, in the order of
/// their names, or the error of the first entry that is no such record.
pub open spec fn records_in<T: Record>(entries: Seq<(Seq<char>, DocView)>) -> Result<
    Seq<(Seq<char>, T::V)>,
    ShapeErrorView,
> {
    match try_map(entries, decode_entry::<T>()) {
        Ok(records) => Ok(in_name_order(records)),
        Err(e) => Err(e),
    }
}

/// The named records that a table holds.
pub open spec fn records_of<T: Record>(doc: DocView) -> Result<
    Seq<(Seq<char>, T::V)>,
    ShapeErrorView,
> {
    match doc {
        DocView::Table(entries) => records_in::<T>(entries),
        _ => Err(ShapeErrorView::NotATable),
    }
}

/// The table of named records under a key: empty where the key is absent.
pub open spec fn records_at<T: Record>(table: DocView, key: Seq<char>) -> Result<
    Seq<(Seq<char>, T::V)>,
    ShapeErrorView,
> {
    match table.get(key) {
        None => Ok(Seq::empty()),
        Some(DocView::Table(entries)) => records_in::<T>(entries),
        Some(_) => Err(ShapeErrorView::Mismatch(key)),
    }
}

/// Reads every entry of a table as a named record and keeps the records in
/// the order of their names.
pub fn read_entries<T: Record>(entries: &Vec<(String, Doc)>) -> (r: Result<
    Vec<(String, T)>,
    ShapeError,
>)
    ensures
        match r {
            Ok(v) => records_in::<T>(Doc::Table(*entries)@->Table_0) == Ok::<
                Seq<(Seq<char>, T::V)>,
                ShapeErrorView,
            >(named_views(v@)) && ascending(named_views(v@)),
            Err(e) => records_in::<T>(Doc::Table(*entries)@->Table_0) == Err::<
                Seq<(Seq<char>, T::V)>,
                ShapeErrorView,
            >(e@),
        },
{
    let ghost all = Doc::Table(*entries)@->Table_0;
    let ghost f = decode_entry::<T>();
    let ghost mut read: Seq<(Seq<char>, T::V)> = Seq::empty();
    proof {
        lemma_table_view(*entries);
        assert(all.take(0) == Seq::<(Seq<char>, DocView)>::empty());
    }
    let mut v: Vec<(String, T)> = Vec::new();
    assert(named_views(v@) == Seq::<(Seq<char>, T::V)>::empty());
    let mut i: usize = 0;
    while i < entries.len()
        invariant
            i <= entries.len(),
            f == decode_entry::<T>(),
            all == Doc::Table(*entries)@->Table_0,
            all.len() == entries@.len(),
            forall|k: int|
                0 <= k < entries@.len() ==> #[trigger] all[k] == (entries@[k].0@, entries@[k].1@),
            try_map(all.take(i as int), f) == Ok::<Seq<(Seq<char>, T::V)>, ShapeErrorView>(read),
            named_views(v@) == in_name_order(read),
            ascending(named_views(v@)),
        decreases entries.len() - i,
    {
        proof {
            lemma_try_map_step(all, f, i as int);
        }
        match T::read(&entries[i].0, &entries[i].1) {
            Ok(record) => {
                proof {
                    let next = read.push((entries@[i as int].0@, record@));
                    assert(next.drop_last() == read);
                    read = next;
                }
                put_record(&mut v, entries[i].0.clone(), record);
            },
            Err(e) => {
                proof {
                    lemma_try_map_fails(all, f, i + 1);
                }
                return Err(e);
            },
        }
        i += 1;
    }
    assert(all.take(i as int) == all);
    Ok(v)
}

/// Reads the table of named records under a key.
pub fn read_records<T: Record>(table: &Doc, key: &str) -> (r: Result<
    Vec<(String, T)>,
    ShapeError,
>)
    ensures
        match r {
            Ok(v) => records_at::<T>(table@, key@) == Ok::<
                Seq<(Seq<char>, T::V)>,
                ShapeErrorView,
            >(named_views(v@)) && ascending(named_views(v@)),
            Err(e) => records_at::<T>(table@, key@) == Err::<
                Seq<(Seq<char>, T::V)>,
                ShapeErrorView,
            >(e@),
        },
{
    let name = key.to_owned();
    match table.get(&name) {
        None => {
            let v: Vec<(String, T)> = Vec::new();
            assert(named_views(v@) == Seq::<(Seq<char>, T::V)>::empty());
            Ok(v)
        },
        Some(Doc::Table(entries)) => read_entries::<T>(entries),
        Some(_) => Err(ShapeError::Mismatch(name)),
    }
}

} // verus!
