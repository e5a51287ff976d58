//! Documents as XML: the elements that a document is written as, and the
//! document that a run of elements is read as.
//!
//! The text of an XML file is split into tokens and put together from them
//! elsewhere; here the tokens are given their structure. A document lies
//! under one root element. A section that holds a text is an element with
//! that text in it; a section that holds records is one element for each
//! record, with an element for each field in it.

use crate::document::{
    Document, Entry, EntryView, Field, FieldView, Record, Scalar, ScalarView, Section, SectionView,
    find_entry, text_field,
};
use crate::error::{LisError, LisErrorView};
use crate::text::{append_str, lemma_views_push, views};
use vstd::prelude::*;

verus! {

/// A piece of an XML text.
#[derive(Clone, Debug, PartialEq, Eq)]
pub enum XmlToken {
    /// The start of an element of this name.
    Open(String),
    /// An element of this name with nothing in it.
    Empty(String),
    /// The end of the element of this name, which is the one that was
    /// started last and has not ended.
    Close(String),
    /// Text, with nothing left of the way it was escaped.
    Text(String),
}

/// The view of `XmlToken`: what it holds, as the contracts speak of it.
pub enum XmlTokenView {
    Open(Seq<char>),
    Empty(Seq<char>),
    Close(Seq<char>),
    Text(Seq<char>),
}

impl View for XmlToken {
    type V = XmlTokenView;

    open spec fn view(&self) -> XmlTokenView {
        match self {
            XmlToken::Open(n) => XmlTokenView::Open(n@),
            XmlToken::Empty(n) => XmlTokenView::Empty(n@),
            XmlToken::Close(n) => XmlTokenView::Close(n@),
            XmlToken::Text(t) => XmlTokenView::Text(t@),
        }
    }
}

/// The tokens of an element that holds a text.
pub open spec fn leaf_tokens(key: Seq<char>, text: Seq<char>) -> Seq<XmlTokenView> {
    if text.len() == 0 {
        seq![XmlTokenView::Empty(key)]
    } else {
        seq![XmlTokenView::Open(key), XmlTokenView::Text(text), XmlTokenView::Close(key)]
    }
}

/// The tokens of a field. Only a field that holds a text is written.
pub open spec fn field_tokens(f: FieldView) -> Seq<XmlTokenView> {
    match f.value {
        ScalarView::Text(t) => leaf_tokens(f.key, t),
        _ => Seq::empty(),
    }
}

/// The tokens of the first `n` fields of a record.
pub open spec fn fields_tokens(fields: Seq<FieldView>, n: int) -> Seq<XmlTokenView>
    decreases n,
{
    if n <= 0 || n > fields.len() {
        Seq::empty()
    } else {
        fields_tokens(fields, n - 1) + field_tokens(fields[n - 1])
    }
}

/// The tokens of a record that is written under the name `key`.
pub open spec fn record_tokens(key: Seq<char>, fields: Seq<FieldView>) -> Seq<XmlTokenView> {
    seq![XmlTokenView::Open(key)] + fields_tokens(fields, fields.len() as int) + seq![
        XmlTokenView::Close(key),
    ]
}

/// The tokens of the first `n` records of a list.
pub open spec fn records_tokens(key: Seq<char>, list: Seq<Seq<FieldView>>, n: int) -> Seq<
    XmlTokenView,
>
    decreases n,
{
    if n <= 0 || n > list.len() {
        Seq::empty()
    } else {
        records_tokens(key, list, n - 1) + record_tokens(key, list[n - 1])
    }
}

/// The tokens of a section. Only a section that holds a text or a list of
/// records is written.
pub open spec fn section_tokens(e: EntryView) -> Seq<XmlTokenView> {
    match e.section {
        SectionView::Value(ScalarView::Text(t)) => leaf_tokens(e.key, t),
        SectionView::Many(list) => records_tokens(e.key, list, list.len() as int),
        _ => Seq::empty(),
    }
}

/// The tokens of the first `n` sections of a document.
pub open spec fn sections_tokens(d: Seq<EntryView>, n: int) -> Seq<XmlTokenView>
    decreases n,
{
    if n <= 0 || n > d.len() {
        Seq::empty()
    } else {
        sections_tokens(d, n - 1) + section_tokens(d[n - 1])
    }
}

/// The tokens that a document is written as, under the element `root`.
pub open spec fn tokens_of(root: Seq<char>, d: Seq<EntryView>) -> Seq<XmlTokenView> {
    seq![XmlTokenView::Open(root)] + sections_tokens(d, d.len() as int) + seq![
        XmlTokenView::Close(root),
    ]
}

/// How far the reading of tokens has come.
pub struct ReaderView {
    /// How many elements are open.
    pub depth: nat,
    /// Whether the root element was met.
    pub seen_root: bool,
    /// What went wrong, if anything did.
    pub problem: Option<Seq<char>>,
    /// The sections read so far.
    pub entries: Seq<EntryView>,
    /// Name of the section that is open.
    pub section_key: Seq<char>,
    /// The text met in the section that is open.
    pub section_text: Seq<char>,
    /// The fields read in the section that is open.
    pub section_fields: Seq<FieldView>,
    /// Whether the section that is open has elements in it.
    pub section_nested: bool,
    /// Name of the field that is open.
    pub field_key: Seq<char>,
    /// The text met in the field that is open.
    pub field_text: Seq<char>,
    /// Whether the field that is open has elements in it.
    pub field_nested: bool,
}

/// The reading before any token.
pub open spec fn unread() -> ReaderView {
    ReaderView {
        depth: 0,
        seen_root: false,
        problem: None,
        entries: Seq::empty(),
        section_key: Seq::empty(),
        section_text: Seq::empty(),
        section_fields: Seq::empty(),
        section_nested: false,
        field_key: Seq::empty(),
        field_text: Seq::empty(),
        field_nested: false,
    }
}

/// The sections with a record added under the name `key`: behind the
/// records that the section of that name holds, or as the first record of a
/// new section. A section of that name that holds something else than
/// records is spoilt by it.
pub open spec fn with_record(entries: Seq<EntryView>, key: Seq<char>, record: Seq<FieldView>)
    -> Seq<EntryView> {
    let k = find_entry(entries, key, 0);
    if 0 <= k < entries.len() {
        match entries[k].section {
            SectionView::Many(list) => entries.update(
                k,
                EntryView { key, section: SectionView::Many(list.push(record)) },
            ),
            _ => entries.update(k, EntryView { key, section: SectionView::Other }),
        }
    } else {
        entries.push(EntryView { key, section: SectionView::Many(seq![record]) })
    }
}

/// The reading after the start of an element called `name`.
pub open spec fn opened(s: ReaderView, root: Seq<char>, name: Seq<char>) -> ReaderView {
    if s.problem is Some {
        s
    } else if s.depth == 0 {
        if s.seen_root {
            ReaderView { problem: Some("more than one root element"@), ..s }
        } else if name != root {
            ReaderView { problem: Some("unexpected root element"@), ..s }
        } else {
            ReaderView { depth: 1, seen_root: true, ..s }
        }
    } else if s.depth == 1 {
        ReaderView {
            depth: 2,
            section_key: name,
            section_text: Seq::empty(),
            section_fields: Seq::empty(),
            section_nested: false,
            ..s
        }
    } else if s.depth == 2 {
        ReaderView {
            depth: 3,
            section_nested: true,
            field_key: name,
            field_text: Seq::empty(),
            field_nested: false,
            ..s
        }
    } else if s.depth == 3 {
        ReaderView { depth: 4, field_nested: true, ..s }
    } else {
        ReaderView { depth: s.depth + 1, ..s }
    }
}

/// The reading after the end of an element.
pub open spec fn closed(s: ReaderView) -> ReaderView {
    if s.problem is Some {
        s
    } else if s.depth == 0 {
        ReaderView { problem: Some("closing tag without an opening tag"@), ..s }
    } else if s.depth == 1 {
        ReaderView { depth: 0, ..s }
    } else if s.depth == 2 {
        ReaderView {
            depth: 1,
            entries: if s.section_nested {
                with_record(s.entries, s.section_key, s.section_fields)
            } else {
                s.entries.push(
                    EntryView {
                        key: s.section_key,
                        section: SectionView::Value(ScalarView::Text(s.section_text)),
                    },
                )
            },
            section_key: Seq::empty(),
            section_text: Seq::empty(),
            section_fields: Seq::empty(),
            section_nested: false,
            ..s
        }
    } else if s.depth == 3 {
        ReaderView {
            depth: 2,
            section_fields: s.section_fields.push(
                FieldView {
                    key: s.field_key,
                    value: if s.field_nested {
                        ScalarView::Other
                    } else {
                        ScalarView::Text(s.field_text)
                    },
                },
            ),
            field_key: Seq::empty(),
            field_text: Seq::empty(),
            field_nested: false,
            ..s
        }
    } else {
        ReaderView { depth: (s.depth - 1) as nat, ..s }
    }
}

/// The reading after a text. A text counts where it lies directly in a
/// section or in a field; anywhere else it is passed over.
pub open spec fn texted(s: ReaderView, text: Seq<char>) -> ReaderView {
    if s.problem is Some {
        s
    } else if s.depth == 2 {
        ReaderView { section_text: s.section_text + text, ..s }
    } else if s.depth == 3 {
        ReaderView { field_text: s.field_text + text, ..s }
    } else {
        s
    }
}

/// The reading after one more token.
pub open spec fn fed(s: ReaderView, root: Seq<char>, token: XmlTokenView) -> ReaderView {
    match token {
        XmlTokenView::Open(name) => opened(s, root, name),
        XmlTokenView::Empty(name) => closed(opened(s, root, name)),
        XmlTokenView::Close(_) => closed(s),
        XmlTokenView::Text(text) => texted(s, text),
    }
}

/// The reading that goes on from `s` with the first `n` of the tokens.
pub open spec fn fed_all(s: ReaderView, root: Seq<char>, tokens: Seq<XmlTokenView>, n: int)
    -> ReaderView
    decreases n,
{
    if n <= 0 || n > tokens.len() {
        s
    } else {
        fed(fed_all(s, root, tokens, n - 1), root, tokens[n - 1])
    }
}

/// The reading after the first `n` tokens.
pub open spec fn read(root: Seq<char>, tokens: Seq<XmlTokenView>, n: int) -> ReaderView {
    fed_all(unread(), root, tokens, n)
}

/// What a reading comes to once the tokens have run out: the sections that
/// were read, or what is wrong with the tokens.
pub open spec fn outcome(s: ReaderView) -> Result<Seq<EntryView>, Seq<char>> {
    match s.problem {
        Some(p) => Err(p),
        None => if s.depth > 0 {
            Err("unclosed element"@)
        } else if !s.seen_root {
            Err("no root element"@)
        } else {
            Ok(s.entries)
        },
    }
}

/// The document that tokens are read as, under the element `root`.
pub open spec fn document_of(root: Seq<char>, tokens: Seq<XmlTokenView>) -> Result<
    Seq<EntryView>,
    Seq<char>,
> {
    outcome(read(root, tokens, tokens.len() as int))
}

/// What is reported for tokens that cannot be read as a document.
pub open spec fn malformed(problem: Seq<char>) -> LisErrorView {
    LisErrorView::Format { detail: "Malformed XML document: "@ + problem }
}

/// Whether a record can be read back from its tokens: it has fields, and
/// each of them holds a text.
pub open spec fn textual_record(r: Seq<FieldView>) -> bool {
    &&& r.len() > 0
    &&& forall|i: int| 0 <= i < r.len() ==> (#[trigger] r[i]).value is Text
}

/// Whether a section can be read back from its tokens: it holds a text, or
/// records that can be read back, at least one.
pub open spec fn textual_section(e: EntryView) -> bool {
    match e.section {
        SectionView::Value(ScalarView::Text(_)) => true,
        SectionView::Many(list) => list.len() > 0 && forall|i: int|
            0 <= i < list.len() ==> textual_record(#[trigger] list[i]),
        _ => false,
    }
}

/// Whether a document can be read back from its tokens: each section can,
/// and no two sections have the same name.
pub open spec fn textual(d: Seq<EntryView>) -> bool {
    &&& forall|i: int| 0 <= i < d.len() ==> textual_section(#[trigger] d[i])
    &&& forall|i: int, j: int| 0 <= i < j < d.len() ==> (#[trigger] d[i]).key != (#[trigger] d[j]).key
}

/// The reading at a place directly under the root, between two sections.
pub open spec fn between_sections(entries: Seq<EntryView>) -> ReaderView {
    ReaderView { depth: 1, seen_root: true, entries, ..unread() }
}

/// The reading at a place in a section, between two fields.
pub open spec fn between_fields(
    entries: Seq<EntryView>,
    key: Seq<char>,
    fields: Seq<FieldView>,
    nested: bool,
) -> ReaderView {
    ReaderView {
        depth: 2,
        section_key: key,
        section_fields: fields,
        section_nested: nested,
        ..between_sections(entries)
    }
}

proof fn lemma_fed_all_prefix(
    s: ReaderView,
    root: Seq<char>,
    a: Seq<XmlTokenView>,
    b: Seq<XmlTokenView>,
    n: int,
)
    requires
        0 <= n <= a.len(),
    ensures
        fed_all(s, root, a + b, n) == fed_all(s, root, a, n),
    decreases n,
{
    if n > 0 {
        lemma_fed_all_prefix(s, root, a, b, n - 1);
        assert((a + b)[n - 1] == a[n - 1]);
    }
}

/// Reading goes through a run of tokens as through its two parts, one
/// after the other.
proof fn lemma_fed_all_concat(
    s: ReaderView,
    root: Seq<char>,
    a: Seq<XmlTokenView>,
    b: Seq<XmlTokenView>,
    k: int,
)
    requires
        0 <= k <= b.len(),
    ensures
        fed_all(s, root, a + b, a.len() + k) == fed_all(
            fed_all(s, root, a, a.len() as int),
            root,
            b,
            k,
        ),
    decreases k,
{
    if k == 0 {
        lemma_fed_all_prefix(s, root, a, b, a.len() as int);
    } else {
        lemma_fed_all_concat(s, root, a, b, k - 1);
        assert((a + b)[a.len() + k - 1] == b[k - 1]);
    }
}

proof fn lemma_whole_concat(s: ReaderView, root: Seq<char>, a: Seq<XmlTokenView>, b: Seq<XmlTokenView>)
    ensures
        fed_all(s, root, a + b, (a + b).len() as int) == fed_all(
            fed_all(s, root, a, a.len() as int),
            root,
            b,
            b.len() as int,
        ),
{
    lemma_fed_all_concat(s, root, a, b, b.len() as int);
}

proof fn lemma_field_is_read(
    entries: Seq<EntryView>,
    key: Seq<char>,
    fields: Seq<FieldView>,
    nested: bool,
    root: Seq<char>,
    name: Seq<char>,
    text: Seq<char>,
)
    ensures
        fed_all(
            between_fields(entries, key, fields, nested),
            root,
            leaf_tokens(name, text),
            leaf_tokens(name, text).len() as int,
        ) == between_fields(entries, key, fields.push(text_field(name, text)), true),
{
    let s = between_fields(entries, key, fields, nested);
    let t = leaf_tokens(name, text);
    reveal_with_fuel(fed_all, 4);
    if text.len() == 0 {
        assert(t.len() == 1);
        assert(fed_all(s, root, t, 1) == fed(s, root, t[0]));
        assert(text =~= Seq::<char>::empty());
    } else {
        assert(t.len() == 3);
        let s1 = fed(s, root, t[0]);
        let s2 = fed(s1, root, t[1]);
        let s3 = fed(s2, root, t[2]);
        assert(fed_all(s, root, t, 3) == s3);
        assert(s2.field_text =~= text);
    }
}

proof fn lemma_fields_are_read(
    entries: Seq<EntryView>,
    key: Seq<char>,
    before: Seq<FieldView>,
    nested: bool,
    root: Seq<char>,
    fields: Seq<FieldView>,
    n: int,
)
    requires
        0 <= n <= fields.len(),
        forall|i: int| 0 <= i < fields.len() ==> (#[trigger] fields[i]).value is Text,
    ensures
        fed_all(
            between_fields(entries, key, before, nested),
            root,
            fields_tokens(fields, n),
            fields_tokens(fields, n).len() as int,
        ) == between_fields(entries, key, before + fields.take(n), nested || n > 0),
    decreases n,
{
    let s = between_fields(entries, key, before, nested);
    if n == 0 {
        assert(before + fields.take(0) =~= before);
    } else {
        lemma_fields_are_read(entries, key, before, nested, root, fields, n - 1);
        let head = fields_tokens(fields, n - 1);
        let f = fields[n - 1];
        let tail = field_tokens(f);
        lemma_whole_concat(s, root, head, tail);
        let name = f.key;
        let text = f.value->Text_0;
        assert(f == text_field(name, text));
        lemma_field_is_read(
            entries,
            key,
            before + fields.take(n - 1),
            nested || n - 1 > 0,
            root,
            name,
            text,
        );
        assert((before + fields.take(n - 1)).push(f) =~= before + fields.take(n));
    }
}

proof fn lemma_record_is_read(
    entries: Seq<EntryView>,
    root: Seq<char>,
    key: Seq<char>,
    fields: Seq<FieldView>,
)
    requires
        textual_record(fields),
    ensures
        fed_all(
            between_sections(entries),
            root,
            record_tokens(key, fields),
            record_tokens(key, fields).len() as int,
        ) == between_sections(with_record(entries, key, fields)),
{
    let s = between_sections(entries);
    let open = seq![XmlTokenView::Open(key)];
    let body = fields_tokens(fields, fields.len() as int);
    let close = seq![XmlTokenView::Close(key)];
    reveal_with_fuel(fed_all, 2);
    lemma_whole_concat(s, root, open + body, close);
    lemma_whole_concat(s, root, open, body);
    let s1 = fed_all(s, root, open, 1);
    assert(s1 == fed(s, root, open[0]));
    assert(s1 == between_fields(entries, key, Seq::empty(), false));
    lemma_fields_are_read(entries, key, Seq::empty(), false, root, fields, fields.len() as int);
    assert(Seq::<FieldView>::empty() + fields.take(fields.len() as int) =~= fields);
    let s2 = between_fields(entries, key, fields, true);
    assert(fed_all(s2, root, close, 1) == fed(s2, root, close[0]));
}

proof fn lemma_find_entry_absent(d: Seq<EntryView>, key: Seq<char>, from: int)
    requires
        0 <= from <= d.len(),
        forall|i: int| 0 <= i < d.len() ==> (#[trigger] d[i]).key != key,
    ensures
        find_entry(d, key, from) == d.len(),
    decreases d.len() - from,
{
    if from < d.len() {
        lemma_find_entry_absent(d, key, from + 1);
    }
}

proof fn lemma_find_entry_last(d: Seq<EntryView>, e: EntryView, from: int)
    requires
        0 <= from <= d.len(),
        forall|i: int| 0 <= i < d.len() ==> (#[trigger] d[i]).key != e.key,
    ensures
        find_entry(d.push(e), e.key, from) == d.len(),
    decreases d.len() - from,
{
    if from < d.len() {
        assert(d.push(e)[from] == d[from]);
        lemma_find_entry_last(d, e, from + 1);
    } else {
        assert(d.push(e)[from] == e);
    }
}

proof fn lemma_records_are_read(
    entries: Seq<EntryView>,
    root: Seq<char>,
    key: Seq<char>,
    list: Seq<Seq<FieldView>>,
    n: int,
)
    requires
        1 <= n <= list.len(),
        forall|i: int| 0 <= i < list.len() ==> textual_record(#[trigger] list[i]),
        forall|i: int| 0 <= i < entries.len() ==> (#[trigger] entries[i]).key != key,
    ensures
        fed_all(
            between_sections(entries),
            root,
            records_tokens(key, list, n),
            records_tokens(key, list, n).len() as int,
        ) == between_sections(
            entries.push(EntryView { key, section: SectionView::Many(list.take(n)) }),
        ),
    decreases n,
{
    let s = between_sections(entries);
    let head = records_tokens(key, list, n - 1);
    let tail = record_tokens(key, list[n - 1]);
    lemma_whole_concat(s, root, head, tail);
    if n == 1 {
        assert(head =~= Seq::<XmlTokenView>::empty());
        assert(fed_all(s, root, head, 0) == s);
        lemma_record_is_read(entries, root, key, list[0]);
        lemma_find_entry_absent(entries, key, 0);
        assert(list.take(1) =~= seq![list[0]]);
    } else {
        lemma_records_are_read(entries, root, key, list, n - 1);
        let e = EntryView { key, section: SectionView::Many(list.take(n - 1)) };
        let grown = entries.push(e);
        lemma_record_is_read(grown, root, key, list[n - 1]);
        lemma_find_entry_last(entries, e, 0);
        assert(list.take(n - 1).push(list[n - 1]) =~= list.take(n));
        assert(with_record(grown, key, list[n - 1]) =~= entries.push(
            EntryView { key, section: SectionView::Many(list.take(n)) },
        ));
    }
}

proof fn lemma_text_section_is_read(
    entries: Seq<EntryView>,
    root: Seq<char>,
    key: Seq<char>,
    text: Seq<char>,
)
    ensures
        fed_all(
            between_sections(entries),
            root,
            leaf_tokens(key, text),
            leaf_tokens(key, text).len() as int,
        ) == between_sections(
            entries.push(EntryView { key, section: SectionView::Value(ScalarView::Text(text)) }),
        ),
{
    let s = between_sections(entries);
    let t = leaf_tokens(key, text);
    reveal_with_fuel(fed_all, 4);
    if text.len() == 0 {
        assert(fed_all(s, root, t, 1) == fed(s, root, t[0]));
        assert(text =~= Seq::<char>::empty());
    } else {
        let s1 = fed(s, root, t[0]);
        let s2 = fed(s1, root, t[1]);
        let s3 = fed(s2, root, t[2]);
        assert(fed_all(s, root, t, 3) == s3);
        assert(s2.section_text =~= text);
    }
}

proof fn lemma_sections_are_read(root: Seq<char>, d: Seq<EntryView>, n: int)
    requires
        0 <= n <= d.len(),
        textual(d),
    ensures
        fed_all(
            between_sections(Seq::empty()),
            root,
            sections_tokens(d, n),
            sections_tokens(d, n).len() as int,
        ) == between_sections(d.take(n)),
    decreases n,
{
    let s = between_sections(Seq::empty());
    if n == 0 {
        assert(d.take(0) =~= Seq::<EntryView>::empty());
    } else {
        lemma_sections_are_read(root, d, n - 1);
        let head = sections_tokens(d, n - 1);
        let e = d[n - 1];
        let tail = section_tokens(e);
        lemma_whole_concat(s, root, head, tail);
        let before = d.take(n - 1);
        assert(textual_section(e));
        match e.section {
            SectionView::Value(ScalarView::Text(t)) => {
                lemma_text_section_is_read(before, root, e.key, t);
            },
            SectionView::Many(list) => {
                assert forall|i: int| 0 <= i < before.len() implies (#[trigger] before[i]).key
                    != e.key by {
                    assert(before[i] == d[i]);
                }
                lemma_records_are_read(before, root, e.key, list, list.len() as int);
                assert(list.take(list.len() as int) =~= list);
            },
            _ => {},
        }
        assert(before.push(e) =~= d.take(n));
    }
}

/// A document that is made of texts and has no two sections of one name
/// is read back from the tokens that it is written as: section by section,
/// record by record, field by field.
pub proof fn lemma_written_tokens_are_read_back(root: Seq<char>, d: Seq<EntryView>)
    requires
        textual(d),
    ensures
        document_of(root, tokens_of(root, d)) == Ok::<Seq<EntryView>, Seq<char>>(d),
{
    let open = seq![XmlTokenView::Open(root)];
    let body = sections_tokens(d, d.len() as int);
    let close = seq![XmlTokenView::Close(root)];
    let s = unread();
    reveal_with_fuel(fed_all, 2);
    lemma_whole_concat(s, root, open + body, close);
    lemma_whole_concat(s, root, open, body);
    let s1 = fed_all(s, root, open, 1);
    assert(s1 == fed(s, root, open[0]));
    assert(s1 == between_sections(Seq::empty()));
    lemma_sections_are_read(root, d, d.len() as int);
    assert(d.take(d.len() as int) =~= d);
    let s2 = between_sections(d);
    assert(fed_all(s2, root, close, 1) == fed(s2, root, close[0]));
}

fn push_leaf(out: &mut Vec<XmlToken>, key: &str, text: &str)
    ensures
        views(final(out)@) == views(old(out)@) + leaf_tokens(key@, text@),
{
    let ghost before = views(out@);
    if text.is_empty() {
        let token = XmlToken::Empty(key.to_owned());
        proof {
            lemma_views_push(out@, token);
        }
        out.push(token);
        assert(views(out@) =~= before + leaf_tokens(key@, text@));
    } else {
        let open = XmlToken::Open(key.to_owned());
        proof {
            lemma_views_push(out@, open);
        }
        out.push(open);
        let body = XmlToken::Text(text.to_owned());
        proof {
            lemma_views_push(out@, body);
        }
        out.push(body);
        let close = XmlToken::Close(key.to_owned());
        proof {
            lemma_views_push(out@, close);
        }
        out.push(close);
        assert(views(out@) =~= before + leaf_tokens(key@, text@));
    }
}

fn push_record(out: &mut Vec<XmlToken>, key: &str, record: &Record)
    ensures
        views(final(out)@) == views(old(out)@) + record_tokens(key@, record@),
{
    let ghost before = views(out@);
    let open = XmlToken::Open(key.to_owned());
    proof {
        lemma_views_push(out@, open);
    }
    out.push(open);
    let mut i: usize = 0;
    assert(views(out@) =~= before + seq![XmlTokenView::Open(key@)] + fields_tokens(record@, 0));
    while i < record.fields.len()
        invariant
            i <= record.fields.len(),
            views(out@) == before + seq![XmlTokenView::Open(key@)] + fields_tokens(
                record@,
                i as int,
            ),
        decreases record.fields.len() - i,
    {
        let ghost so_far = views(out@);
        match &record.fields[i].value {
            Scalar::Text(t) => {
                push_leaf(out, record.fields[i].key.as_str(), t.as_str());
            },
            _ => {
                assert(so_far + field_tokens(record@[i as int]) =~= so_far);
            },
        }
        assert(views(out@) == so_far + field_tokens(record@[i as int]));
        assert(views(out@) =~= before + seq![XmlTokenView::Open(key@)] + fields_tokens(
            record@,
            i + 1,
        ));
        i = i + 1;
    }
    let close = XmlToken::Close(key.to_owned());
    proof {
        lemma_views_push(out@, close);
    }
    out.push(close);
    assert(views(out@) =~= before + record_tokens(key@, record@));
}

fn push_section(out: &mut Vec<XmlToken>, entry: &Entry)
    ensures
        views(final(out)@) == views(old(out)@) + section_tokens(entry@),
{
    let ghost before = views(out@);
    match &entry.section {
        Section::Value(Scalar::Text(t)) => {
            push_leaf(out, entry.key.as_str(), t.as_str());
        },
        Section::Many(list) => {
            let mut i: usize = 0;
            assert(views(out@) =~= before + records_tokens(entry@.key, views(list@), 0));
            while i < list.len()
                invariant
                    i <= list.len(),
                    views(out@) == before + records_tokens(entry@.key, views(list@), i as int),
                decreases list.len() - i,
            {
                push_record(out, entry.key.as_str(), &list[i]);
                assert(views(out@) =~= before + records_tokens(entry@.key, views(list@), i + 1));
                i = i + 1;
            }
        },
        _ => {
            assert(before + section_tokens(entry@) =~= before);
        },
    }
}

/// The tokens that a document is written as, under the element `root`.
/// Sections and fields that hold something else than text are not written.
pub fn document_tokens(root: &str, document: &Document) -> (r: Vec<XmlToken>)
    ensures
        views(r@) == tokens_of(root@, document@),
{
    let mut out: Vec<XmlToken> = Vec::new();
    out.push(XmlToken::Open(root.to_owned()));
    let mut i: usize = 0;
    assert(views(out@) =~= seq![XmlTokenView::Open(root@)] + sections_tokens(document@, 0));
    while i < document.entries.len()
        invariant
            i <= document.entries.len(),
            views(out@) == seq![XmlTokenView::Open(root@)] + sections_tokens(document@, i as int),
        decreases document.entries.len() - i,
    {
        push_section(&mut out, &document.entries[i]);
        assert(views(out@) =~= seq![XmlTokenView::Open(root@)] + sections_tokens(
            document@,
            i + 1,
        ));
        i = i + 1;
    }
    let close = XmlToken::Close(root.to_owned());
    proof {
        lemma_views_push(out@, close);
    }
    out.push(close);
    assert(views(out@) =~= tokens_of(root@, document@));
    out
}

struct Reader {
    depth: usize,
    seen_root: bool,
    problem: Option<String>,
    entries: Vec<Entry>,
    section_key: String,
    section_text: String,
    section_fields: Vec<Field>,
    section_nested: bool,
    field_key: String,
    field_text: String,
    field_nested: bool,
}

impl View for Reader {
    type V = ReaderView;

    closed spec fn view(&self) -> ReaderView {
        ReaderView {
            depth: self.depth as nat,
            seen_root: self.seen_root,
            problem: crate::text::opt_view(self.problem),
            entries: views(self.entries@),
            section_key: self.section_key@,
            section_text: self.section_text@,
            section_fields: views(self.section_fields@),
            section_nested: self.section_nested,
            field_key: self.field_key@,
            field_text: self.field_text@,
            field_nested: self.field_nested,
        }
    }
}

fn add_record(entries: &mut Vec<Entry>, key: String, fields: Vec<Field>)
    ensures
        views(final(entries)@) == with_record(views(old(entries)@), key@, views(fields@)),
{
    let ghost before = views(entries@);
    let ghost record = views(fields@);
    let mut k: usize = 0;
    while k < entries.len() && !entries[k].key.as_str().eq(key.as_str())
        invariant
            k <= entries.len(),
            *entries == *old(entries),
            find_entry(before, key@, 0) == find_entry(before, key@, k as int),
            before == views(entries@),
        decreases entries.len() - k,
    {
        k = k + 1;
    }
    if k < entries.len() {
        let old_entry = entries.remove(k);
        assert(old_entry@ == before[k as int]);
        let section = match old_entry.section {
            Section::Many(mut list) => {
                proof {
                    lemma_views_push(list@, Record { fields });
                }
                list.push(Record { fields });
                Section::Many(list)
            },
            _ => Section::Other,
        };
        entries.insert(k, Entry { key, section });
        assert(views(entries@) =~= with_record(before, key@, record));
    } else {
        let mut list: Vec<Record> = Vec::new();
        list.push(Record { fields });
        assert(views(list@) =~= seq![record]);
        let entry = Entry { key, section: Section::Many(list) };
        proof {
            lemma_views_push(entries@, entry);
        }
        entries.push(entry);
    }
}

impl Reader {
    fn new() -> (r: Reader)
        ensures
            r@ == unread(),
    {
        let r = Reader {
            depth: 0,
            seen_root: false,
            problem: None,
            entries: Vec::new(),
            section_key: String::new(),
            section_text: String::new(),
            section_fields: Vec::new(),
            section_nested: false,
            field_key: String::new(),
            field_text: String::new(),
            field_nested: false,
        };
        assert(views(r.entries@) =~= Seq::<EntryView>::empty());
        assert(views(r.section_fields@) =~= Seq::<FieldView>::empty());
        r
    }

    fn open(&mut self, root: &str, name: &str)
        requires
            old(self).depth < usize::MAX,
        ensures
            final(self)@ == opened(old(self)@, root@, name@),
    {
        if self.problem.is_some() {
            return ;
        }
        if self.depth == 0 {
            if self.seen_root {
                self.problem = Some("more than one root element".to_owned());
            } else if !name.eq(root) {
                self.problem = Some("unexpected root element".to_owned());
            } else {
                self.depth = 1;
                self.seen_root = true;
            }
        } else if self.depth == 1 {
            self.depth = 2;
            self.section_key = name.to_owned();
            self.section_text = String::new();
            self.section_fields = Vec::new();
            self.section_nested = false;
            assert(views(self.section_fields@) =~= Seq::<FieldView>::empty());
        } else if self.depth == 2 {
            self.depth = 3;
            self.section_nested = true;
            self.field_key = name.to_owned();
            self.field_text = String::new();
            self.field_nested = false;
        } else if self.depth == 3 {
            self.depth = 4;
            self.field_nested = true;
        } else {
            self.depth = self.depth + 1;
        }
    }

    fn close(&mut self)
        ensures
            final(self)@ == closed(old(self)@),
    {
        if self.problem.is_some() {
            return ;
        }
        if self.depth == 0 {
            self.problem = Some("closing tag without an opening tag".to_owned());
        } else if self.depth == 1 {
            self.depth = 0;
        } else if self.depth == 2 {
            self.depth = 1;
            let key = self.section_key.clone();
            let mut fields: Vec<Field> = Vec::new();
            assert(views(fields@) =~= Seq::<FieldView>::empty());
            std::mem::swap(&mut fields, &mut self.section_fields);
            if self.section_nested {
                add_record(&mut self.entries, key, fields);
            } else {
                let entry = Entry {
                    key,
                    section: Section::Value(Scalar::Text(self.section_text.clone())),
                };
                proof {
                    lemma_views_push(self.entries@, entry);
                }
                self.entries.push(entry);
            }
            self.section_key = String::new();
            self.section_text = String::new();
            self.section_nested = false;
        } else if self.depth == 3 {
            self.depth = 2;
            let value = if self.field_nested {
                Scalar::Other
            } else {
                Scalar::Text(self.field_text.clone())
            };
            let field = Field { key: self.field_key.clone(), value };
            proof {
                lemma_views_push(self.section_fields@, field);
            }
            self.section_fields.push(field);
            self.field_key = String::new();
            self.field_text = String::new();
            self.field_nested = false;
        } else {
            self.depth = self.depth - 1;
        }
    }

    fn text(&mut self, text: &str)
        ensures
            final(self)@ == texted(old(self)@, text@),
    {
        if self.problem.is_some() {
            return ;
        }
        if self.depth == 2 {
            self.section_text = append_str(self.section_text.as_str(), text);
        } else if self.depth == 3 {
            self.field_text = append_str(self.field_text.as_str(), text);
        }
    }

    fn feed(&mut self, root: &str, token: &XmlToken)
        requires
            old(self).depth < usize::MAX,
        ensures
            final(self)@ == fed(old(self)@, root@, token@),
            final(self).depth <= old(self).depth + 1,
    {
        match token {
            XmlToken::Open(name) => {
                self.open(root, name.as_str());
            },
            XmlToken::Empty(name) => {
                self.open(root, name.as_str());
                self.close();
            },
            XmlToken::Close(_) => {
                self.close();
            },
            XmlToken::Text(text) => {
                self.text(text.as_str());
            },
        }
    }
}

/// The document that tokens are read as, under the element `root`.
///
/// An element directly under the root is a section: one without elements
/// in it holds its text; those with elements in them are records, one
/// record for each element, gathered by name in the order in which the
/// names first occur. An element in a record is a field and holds its
/// text. What lies deeper is not read. The tokens must open and close one
/// root element, called `root`, and nothing else at their top.
pub fn document_of_tokens(root: &str, tokens: &Vec<XmlToken>) -> (r: Result<Document, LisError>)
    ensures
        match document_of(root@, views(tokens@)) {
            Ok(d) => r matches Ok(document) && document@ == d,
            Err(problem) => r matches Err(e) && e@ == malformed(problem),
        },
{
    let mut reader = Reader::new();
    let mut i: usize = 0;
    while i < tokens.len()
        invariant
            i <= tokens.len(),
            reader.depth <= i,
            reader@ == read(root@, views(tokens@), i as int),
        decreases tokens.len() - i,
    {
        reader.feed(root, &tokens[i]);
        i = i + 1;
    }
    let problem = match reader.problem {
        Some(p) => Some(p),
        None => {
            if reader.depth > 0 {
                Some("unclosed element".to_owned())
            } else if !reader.seen_root {
                Some("no root element".to_owned())
            } else {
                None
            }
        },
    };
    match problem {
        Some(p) => Err(
            LisError::Format { detail: append_str("Malformed XML document: ", p.as_str()) },
        ),
        None => Ok(Document { entries: reader.entries }),
    }
}

} // verus!
