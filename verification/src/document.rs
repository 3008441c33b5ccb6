//! Semi-structured documents: the tree that a manifest, a registry index or a
//! theme file holds once its syntax has been read.

use vstd::prelude::*;

verus! {

/// A number as a document holds it.
#[derive(Clone, Debug, PartialEq, Eq)]
pub enum Number {
    /// A whole number that fits in 64 signed bits.
    Integer(i64),
    /// Any other number, in the decimal form in which it is printed.
    Decimal(String),
}

/// A document tree. A table keeps its entries in the order in which they were
/// read; in a well-formed document no key occurs twice in one table.
#[derive(Debug, PartialEq, Eq)]
pub enum Doc {
    Null,
    Bool(bool),
    Number(Number),
    Text(String),
    Datetime(String),
    List(Vec<Doc>),
    Table(Vec<(String, Doc)>),
}

/// The mathematical value of a [`Number`].
pub ghost enum NumberView {
    Integer(int),
    Decimal(Seq<char>),
}

/// The mathematical value of a [`Doc`].
pub ghost enum DocView {
    Null,
    Bool(bool),
    Number(NumberView),
    Text(Seq<char>),
    Datetime(Seq<char>),
    List(Seq<DocView>),
    Table(Seq<(Seq<char>, DocView)>),
}

impl View for Number {
    type V = NumberView;

    open spec fn view(&self) -> NumberView {
        match self {
            Number::Integer(i) => NumberView::Integer(*i as int),
            Number::Decimal(s) => NumberView::Decimal(s@),
        }
    }
}

impl Doc {
    /// The mathematical value of the document.
    pub open spec fn model(&self) -> DocView
        decreases self,
    {
        match self {
            Doc::Null => DocView::Null,
            Doc::Bool(b) => DocView::Bool(*b),
            Doc::Number(n) => DocView::Number(n@),
            Doc::Text(s) => DocView::Text(s@),
            Doc::Datetime(s) => DocView::Datetime(s@),
            Doc::List(items) => DocView::List(
                Seq::new(
                    items@.len(),
                    |i: int|
                        if 0 <= i < items@.len() {
                            items@[i].model()
                        } else {
                            DocView::Null
                        },
                ),
            ),
            Doc::Table(entries) => DocView::Table(
                Seq::new(
                    entries@.len(),
                    |i: int|
                        if 0 <= i < entries@.len() {
                            (entries@[i].0@, entries@[i].1.model())
                        } else {
                            (Seq::empty(), DocView::Null)
                        },
                ),
            ),
        }
    }
}

impl View for Doc {
    type V = DocView;

    open spec fn view(&self) -> DocView {
        self.model()
    }
}

/// The value that an association list gives `key`: that of the first entry
/// that has this key, if there is one.
pub open spec fn lookup<T>(entries: Seq<(Seq<char>, T)>, key: Seq<char>) -> Option<T>
    decreases entries.len(),
{
    if entries.len() == 0 {
        None
    } else if entries[0].0 == key {
        Some(entries[0].1)
    } else {
        lookup(entries.drop_first(), key)
    }
}

/// No key occurs twice in the association list.
pub open spec fn distinct_keys<T>(entries: Seq<(Seq<char>, T)>) -> bool {
    forall|i: int, j: int|
        0 <= i < j < entries.len() ==> (#[trigger] entries[i]).0 != (#[trigger] entries[j]).0
}

impl DocView {
    /// The value under `key`, where this document is a table that has the key.
    pub open spec fn get(self, key: Seq<char>) -> Option<DocView> {
        match self {
            DocView::Table(entries) => lookup(entries, key),
            _ => None,
        }
    }

    /// Every table of the document, at any depth, has distinct keys.
    pub open spec fn wf(self) -> bool
        decreases self,
    {
        match self {
            DocView::List(items) => forall|i: int|
                0 <= i < items.len() ==> (#[trigger] items[i]).wf(),
            DocView::Table(entries) => distinct_keys(entries) && forall|i: int|
                0 <= i < entries.len() ==> (#[trigger] entries[i]).1.wf(),
            _ => true,
        }
    }

    /// The document that is reached from this one by descending through
    /// nested tables along `path`. The path names the innermost key first, so
    /// the descent starts with its last segment and ends with its first. The
    /// empty path reaches the document itself; a missing key, or a value that
    /// is no table where a key is still to be looked up, reaches nothing.
    pub open spec fn descend(self, path: Seq<Seq<char>>) -> Option<DocView>
        decreases path.len(),
    {
        if path.len() == 0 {
            Some(self)
        } else {
            match self.get(path.last()) {
                Some(inner) => inner.descend(path.drop_last()),
                None => None,
            }
        }
    }
}

/// The views of a sequence of strings.
pub open spec fn views(strings: Seq<String>) -> Seq<Seq<char>> {
    Seq::new(strings.len(), |i: int| strings[i]@)
}

/// What the view of a table holds, entry by entry.
pub proof fn lemma_table_view(entries: Vec<(String, Doc)>)
    ensures
        Doc::Table(entries)@ is Table,
        Doc::Table(entries)@->Table_0.len() == entries@.len(),
        forall|k: int|
            0 <= k < entries@.len() ==> #[trigger] Doc::Table(entries)@->Table_0[k] == (
                entries@[k].0@,
                entries@[k].1@,
            ),
{
}

/// What the view of a list holds, item by item.
pub proof fn lemma_list_view(items: Vec<Doc>)
    ensures
        Doc::List(items)@ is List,
        Doc::List(items)@->List_0.len() == items@.len(),
        forall|k: int| 0 <= k < items@.len() ==> #[trigger] Doc::List(items)@->List_0[k] == items@[k]@,
{
}

impl Doc {
    /// Every table of the document, at any depth, has distinct keys.
    pub open spec fn wf(&self) -> bool {
        self@.wf()
    }

    /// The entries of a table; `None` for any other document.
    pub fn as_table(&self) -> (r: Option<&Vec<(String, Doc)>>)
        ensures
            match r {
                Some(entries) => *self == Doc::Table(*entries),
                None => !(self is Table),
            },
    {
        match self {
            Doc::Table(entries) => Some(entries),
            _ => None,
        }
    }

    /// A copy of the document.
    pub fn duplicate(&self) -> (r: Doc)
        ensures
            r@ == self@,
        decreases self,
    {
        match self {
            Doc::Null => Doc::Null,
            Doc::Bool(b) => Doc::Bool(*b),
            Doc::Number(Number::Integer(i)) => Doc::Number(Number::Integer(*i)),
            Doc::Number(Number::Decimal(s)) => Doc::Number(Number::Decimal(s.clone())),
            Doc::Text(s) => Doc::Text(s.clone()),
            Doc::Datetime(s) => Doc::Datetime(s.clone()),
            Doc::List(items) => {
                let mut copy: Vec<Doc> = Vec::new();
                let mut i: usize = 0;
                while i < items.len()
                    invariant
                        i <= items.len(),
                        *self == Doc::List(*items),
                        copy@.len() == i,
                        forall|k: int| 0 <= k < i ==> (#[trigger] copy@[k])@ == items@[k]@,
                    decreases items.len() - i,
                {
                    proof {
                        assert(self->List_0 == *items);
                        assert(decreases_to!(*self => self->List_0));
                        assert(decreases_to!(items => items@));
                        assert(decreases_to!(items@ => items@[i as int]));
                    }
                    copy.push(items[i].duplicate());
                    i += 1;
                }
                proof {
                    lemma_list_view(copy);
                    lemma_list_view(*items);
                    assert(Doc::List(copy)@->List_0 =~= Doc::List(*items)@->List_0);
                }
                Doc::List(copy)
            },
            Doc::Table(entries) => {
                let mut copy: Vec<(String, Doc)> = Vec::new();
                let mut i: usize = 0;
                while i < entries.len()
                    invariant
                        i <= entries.len(),
                        *self == Doc::Table(*entries),
                        copy@.len() == i,
                        forall|k: int|
                            0 <= k < i ==> (#[trigger] copy@[k]).0@ == entries@[k].0@
                                && copy@[k].1@ == entries@[k].1@,
                    decreases entries.len() - i,
                {
                    proof {
                        assert(self->Table_0 == *entries);
                        assert(decreases_to!(*self => self->Table_0));
                        assert(decreases_to!(entries => entries@));
                        assert(decreases_to!(entries@ => entries@[i as int]));
                        assert(decreases_to!(entries@[i as int] => entries@[i as int].1));
                    }
                    copy.push((entries[i].0.clone(), entries[i].1.duplicate()));
                    i += 1;
                }
                proof {
                    lemma_table_view(copy);
                    lemma_table_view(*entries);
                    assert(Doc::Table(copy)@->Table_0 =~= Doc::Table(*entries)@->Table_0);
                }
                Doc::Table(copy)
            },
        }
    }

    /// The value under `key`, where this document is a table that has the
    /// key; `None` where it is no table or lacks the key.
    pub fn get(&self, key: &String) -> (r: Option<&Doc>)
        ensures
            match r {
                Some(d) => self@.get(key@) == Some(d@),
                None => self@.get(key@) is None,
            },
    {
        match self {
            Doc::Table(entries) => {
                let ghost all = self@->Table_0;
                proof {
                    lemma_table_view(*entries);
                    assert(all.skip(0) == all);
                }
                let mut i: usize = 0;
                while i < entries.len()
                    invariant
                        i <= entries.len(),
                        self@ == DocView::Table(all),
                        all.len() == entries@.len(),
                        forall|k: int|
                            0 <= k < all.len() ==> all[k] == (entries@[k].0@, entries@[k].1@),
                        lookup(all, key@) == lookup(all.skip(i as int), key@),
                    decreases entries.len() - i,
                {
                    proof {
                        let rest = all.skip(i as int);
                        assert(rest[0] == all[i as int]);
                        assert(rest.drop_first() == all.skip(i + 1));
                    }
                    if entries[i].0 == *key {
                        return Some(&entries[i].1);
                    }
                    i += 1;
                }
                None
            },
            _ => None,
        }
    }

    /// Descends through nested tables along `path`, innermost key first, and
    /// returns the document that is reached, if the whole path can be walked.
    pub fn descend(&self, path: &Vec<String>) -> (r: Option<&Doc>)
        ensures
            match r {
                Some(d) => self@.descend(views(path@)) == Some(d@),
                None => self@.descend(views(path@)) is None,
            },
    {
        let ghost segments = views(path@);
        let mut current: &Doc = self;
        let mut i: usize = path.len();
        proof {
            assert(segments.take(i as int) == segments);
        }
        while i > 0
            invariant
                i <= path.len(),
                segments == views(path@),
                self@.descend(segments) == current@.descend(segments.take(i as int)),
            decreases i,
        {
            proof {
                let head = segments.take(i as int);
                assert(head.last() == path@[i - 1]@);
                assert(head.drop_last() == segments.take(i - 1));
            }
            match current.get(&path[i - 1]) {
                Some(inner) => {
                    current = inner;
                },
                None => {
                    return None;
                },
            }
            i -= 1;
        }
        proof {
            assert(segments.take(0).len() == 0);
        }
        Some(current)
    }
}

} // verus!
