//! Documents as they are written to disk, before any meaning is given to
//! them: named sections that hold a value, a record of named values, or a
//! list of such records. The structured-text formats that the tools write
//! all come down to this shape.

use crate::text::{clone_strings, lemma_views_push, views};
use vstd::prelude::*;

verus! {

/// A value of a document.
#[derive(Clone, Debug, PartialEq, Eq)]
pub enum Scalar {
    Text(String),
    Integer(i64),
    Flag(bool),
    /// A list of texts.
    Texts(Vec<String>),
    /// A value of a kind that no document of the tools holds.
    Other,
}

/// The view of `Scalar`: what it holds, as the contracts speak of it.
pub enum ScalarView {
    Text(Seq<char>),
    Integer(i64),
    Flag(bool),
    Texts(Seq<Seq<char>>),
    Other,
}

impl View for Scalar {
    type V = ScalarView;

    open spec fn view(&self) -> ScalarView {
        match self {
            Scalar::Text(t) => ScalarView::Text(t@),
            Scalar::Integer(i) => ScalarView::Integer(*i),
            Scalar::Flag(b) => ScalarView::Flag(*b),
            Scalar::Texts(list) => ScalarView::Texts(views(list@)),
            Scalar::Other => ScalarView::Other,
        }
    }
}

/// A named value.
#[derive(Clone, Debug, PartialEq, Eq)]
pub struct Field {
    pub key: String,
    pub value: Scalar,
}

/// The view of `Field`: what it holds, as the contracts speak of it.
pub struct FieldView {
    pub key: Seq<char>,
    pub value: ScalarView,
}

impl View for Field {
    type V = FieldView;

    open spec fn view(&self) -> FieldView {
        FieldView { key: self.key@, value: self.value@ }
    }
}

/// Named values, in the order in which they are written.
#[derive(Clone, Debug, PartialEq, Eq)]
pub struct Record {
    pub fields: Vec<Field>,
}

impl View for Record {
    type V = Seq<FieldView>;

    open spec fn view(&self) -> Seq<FieldView> {
        views(self.fields@)
    }
}

/// What a section of a document holds.
#[derive(Clone, Debug, PartialEq, Eq)]
pub enum Section {
    Value(Scalar),
    One(Record),
    Many(Vec<Record>),
    /// Something of a shape that no document of the tools has.
    Other,
}

/// The view of `Section`: what it holds, as the contracts speak of it.
pub enum SectionView {
    Value(ScalarView),
    One(Seq<FieldView>),
    Many(Seq<Seq<FieldView>>),
    Other,
}

impl View for Section {
    type V = SectionView;

    open spec fn view(&self) -> SectionView {
        match self {
            Section::Value(v) => SectionView::Value(v@),
            Section::One(r) => SectionView::One(r@),
            Section::Many(list) => SectionView::Many(views(list@)),
            Section::Other => SectionView::Other,
        }
    }
}

/// A named section.
#[derive(Clone, Debug, PartialEq, Eq)]
pub struct Entry {
    pub key: String,
    pub section: Section,
}

/// The view of `Entry`: what it holds, as the contracts speak of it.
pub struct EntryView {
    pub key: Seq<char>,
    pub section: SectionView,
}

impl View for Entry {
    type V = EntryView;

    open spec fn view(&self) -> EntryView {
        EntryView { key: self.key@, section: self.section@ }
    }
}

/// A document: named sections, in the order in which they are written.
#[derive(Clone, Debug, PartialEq, Eq)]
pub struct Document {
    pub entries: Vec<Entry>,
}

impl View for Document {
    type V = Seq<EntryView>;

    open spec fn view(&self) -> Seq<EntryView> {
        views(self.entries@)
    }
}

/// The first position at or after `from` of a field called `key`, or the
/// number of fields when there is none.
pub open spec fn find_field(r: Seq<FieldView>, key: Seq<char>, from: int) -> int
    decreases r.len() - from,
{
    if 0 <= from < r.len() && r[from].key != key {
        find_field(r, key, from + 1)
    } else {
        from
    }
}

/// The value of the first field called `key`.
pub open spec fn value_at(r: Seq<FieldView>, key: Seq<char>) -> Option<ScalarView> {
    let k = find_field(r, key, 0);
    if 0 <= k < r.len() {
        Some(r[k].value)
    } else {
        None
    }
}

/// The text that the field `key` holds, if it holds one.
pub open spec fn text_at(r: Seq<FieldView>, key: Seq<char>) -> Option<Seq<char>> {
    match value_at(r, key) {
        Some(ScalarView::Text(t)) => Some(t),
        _ => None,
    }
}

/// The integer that the field `key` holds, if it holds one.
pub open spec fn integer_at(r: Seq<FieldView>, key: Seq<char>) -> Option<i64> {
    match value_at(r, key) {
        Some(ScalarView::Integer(i)) => Some(i),
        _ => None,
    }
}

/// The flag that the field `key` holds, if it holds one.
pub open spec fn flag_at(r: Seq<FieldView>, key: Seq<char>) -> Option<bool> {
    match value_at(r, key) {
        Some(ScalarView::Flag(b)) => Some(b),
        _ => None,
    }
}

/// The list of texts that the field `key` holds, if it holds one.
pub open spec fn texts_at(r: Seq<FieldView>, key: Seq<char>) -> Option<Seq<Seq<char>>> {
    match value_at(r, key) {
        Some(ScalarView::Texts(list)) => Some(list),
        _ => None,
    }
}

/// The text of a field that may be left out: no text where the field is
/// left out, and nothing at all where it holds something else than a text.
pub open spec fn optional_text_at(r: Seq<FieldView>, key: Seq<char>) -> Option<
    Option<Seq<char>>,
> {
    match value_at(r, key) {
        None => Some(None),
        Some(ScalarView::Text(t)) => Some(Some(t)),
        Some(_) => None,
    }
}

/// The first position at or after `from` of a section called `key`, or the
/// number of sections when there is none.
pub open spec fn find_entry(d: Seq<EntryView>, key: Seq<char>, from: int) -> int
    decreases d.len() - from,
{
    if 0 <= from < d.len() && d[from].key != key {
        find_entry(d, key, from + 1)
    } else {
        from
    }
}

/// The first section called `key`.
pub open spec fn section_at(d: Seq<EntryView>, key: Seq<char>) -> Option<SectionView> {
    let k = find_entry(d, key, 0);
    if 0 <= k < d.len() {
        Some(d[k].section)
    } else {
        None
    }
}

/// The record of the section `key`, if there is such a section and it holds
/// a record.
pub open spec fn record_at(d: Seq<EntryView>, key: Seq<char>) -> Option<Seq<FieldView>> {
    match section_at(d, key) {
        Some(SectionView::One(r)) => Some(r),
        _ => None,
    }
}

/// The records of the section `key`: none where the section is left out,
/// and nothing at all where it holds something else than a list of records.
pub open spec fn records_at(d: Seq<EntryView>, key: Seq<char>) -> Option<Seq<Seq<FieldView>>> {
    match section_at(d, key) {
        None => Some(Seq::empty()),
        Some(SectionView::Many(list)) => Some(list),
        Some(_) => None,
    }
}

/// A field that holds a text.
pub open spec fn text_field(key: Seq<char>, value: Seq<char>) -> FieldView {
    FieldView { key, value: ScalarView::Text(value) }
}

/// The field for a text that may be left out.
pub open spec fn optional_text_field(key: Seq<char>, value: Option<Seq<char>>) -> Seq<FieldView> {
    match value {
        Some(t) => seq![text_field(key, t)],
        None => Seq::empty(),
    }
}

impl Record {
    /// A record without fields.
    pub fn new() -> (r: Record)
        ensures
            r@ == Seq::<FieldView>::empty(),
    {
        let r = Record { fields: Vec::new() };
        assert(r@ =~= Seq::<FieldView>::empty());
        r
    }

    /// Puts a field behind those that are there.
    pub fn put(&mut self, key: &str, value: Scalar)
        ensures
            final(self)@ == old(self)@.push(FieldView { key: key@, value: value@ }),
    {
        let field = Field { key: key.to_owned(), value };
        proof {
            lemma_views_push(self.fields@, field);
        }
        self.fields.push(field);
    }

    /// Puts a field that holds a text behind those that are there.
    pub fn put_text(&mut self, key: &str, value: &str)
        ensures
            final(self)@ == old(self)@.push(text_field(key@, value@)),
    {
        self.put(key, Scalar::Text(value.to_owned()));
    }

    /// Puts the field for a text that may be left out.
    pub fn put_optional_text(&mut self, key: &str, value: &Option<String>)
        ensures
            final(self)@ == old(self)@ + optional_text_field(
                key@,
                crate::text::opt_view(*value),
            ),
    {
        match value {
            Some(t) => {
                self.put_text(key, t.as_str());
                assert(old(self)@.push(text_field(key@, t@)) =~= old(self)@ + seq![
                    text_field(key@, t@),
                ]);
            },
            None => {
                assert(old(self)@ + Seq::<FieldView>::empty() =~= old(self)@);
            },
        }
    }

    /// The value of the first field called `key`.
    pub fn get(&self, key: &str) -> (r: Option<&Scalar>)
        ensures
            match value_at(self@, key@) {
                Some(v) => r matches Some(found) && found@ == v,
                None => r is None,
            },
    {
        let mut k: usize = 0;
        while k < self.fields.len() && !self.fields[k].key.as_str().eq(key)
            invariant
                k <= self.fields.len(),
                find_field(self@, key@, 0) == find_field(self@, key@, k as int),
            decreases self.fields.len() - k,
        {
            k = k + 1;
        }
        if k < self.fields.len() {
            Some(&self.fields[k].value)
        } else {
            None
        }
    }

    /// The text that the field `key` holds, if it holds one.
    pub fn text(&self, key: &str) -> (r: Option<String>)
        ensures
            crate::text::opt_view(r) == text_at(self@, key@),
    {
        match self.get(key) {
            Some(Scalar::Text(t)) => Some(t.clone()),
            _ => None,
        }
    }

    /// The integer that the field `key` holds, if it holds one.
    pub fn integer(&self, key: &str) -> (r: Option<i64>)
        ensures
            r == integer_at(self@, key@),
    {
        match self.get(key) {
            Some(Scalar::Integer(i)) => Some(*i),
            _ => None,
        }
    }

    /// The flag that the field `key` holds, if it holds one.
    pub fn flag(&self, key: &str) -> (r: Option<bool>)
        ensures
            r == flag_at(self@, key@),
    {
        match self.get(key) {
            Some(Scalar::Flag(b)) => Some(*b),
            _ => None,
        }
    }

    /// The list of texts that the field `key` holds, if it holds one.
    pub fn texts(&self, key: &str) -> (r: Option<Vec<String>>)
        ensures
            match texts_at(self@, key@) {
                Some(list) => r matches Some(found) && views(found@) == list,
                None => r is None,
            },
    {
        match self.get(key) {
            Some(Scalar::Texts(list)) => Some(clone_strings(list)),
            _ => None,
        }
    }

    /// The text of a field that may be left out.
    pub fn optional_text(&self, key: &str) -> (r: Option<Option<String>>)
        ensures
            match optional_text_at(self@, key@) {
                Some(t) => r matches Some(found) && crate::text::opt_view(found) == t,
                None => r is None,
            },
    {
        match self.get(key) {
            None => Some(None),
            Some(Scalar::Text(t)) => Some(Some(t.clone())),
            Some(_) => None,
        }
    }
}

impl Document {
    /// A document without sections.
    pub fn new() -> (r: Document)
        ensures
            r@ == Seq::<EntryView>::empty(),
    {
        let r = Document { entries: Vec::new() };
        assert(r@ =~= Seq::<EntryView>::empty());
        r
    }

    /// Puts a section behind those that are there.
    pub fn put(&mut self, key: &str, section: Section)
        ensures
            final(self)@ == old(self)@.push(EntryView { key: key@, section: section@ }),
    {
        let entry = Entry { key: key.to_owned(), section };
        proof {
            lemma_views_push(self.entries@, entry);
        }
        self.entries.push(entry);
    }

    /// The first section called `key`.
    pub fn get(&self, key: &str) -> (r: Option<&Section>)
        ensures
            match section_at(self@, key@) {
                Some(s) => r matches Some(found) && found@ == s,
                None => r is None,
            },
    {
        let mut k: usize = 0;
        while k < self.entries.len() && !self.entries[k].key.as_str().eq(key)
            invariant
                k <= self.entries.len(),
                find_entry(self@, key@, 0) == find_entry(self@, key@, k as int),
            decreases self.entries.len() - k,
        {
            k = k + 1;
        }
        if k < self.entries.len() {
            Some(&self.entries[k].section)
        } else {
            None
        }
    }
}

} // verus!
