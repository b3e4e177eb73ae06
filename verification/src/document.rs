//! Plain TOML documents: sections of texts, whole numbers, truth values and lists of texts.

use crate::config::escape_toml;
use crate::text;
use crate::tree::TreeModel;
use vstd::prelude::*;

verus! {

/// A value of a plain document.
pub enum Item {
    Text(Seq<char>),
    Number(nat),
    Flag(bool),
    Texts(Seq<Seq<char>>),
}

/// A name and its value.
pub type Field = (Seq<char>, Item);

/// A section: the names that lead to it, and its fields.
pub struct Section {
    pub path: Seq<Seq<char>>,
    pub fields: Seq<Field>,
}

/// A text as it stands between the quotes of a TOML string.
pub open spec fn toml_escaped(s: Seq<char>) -> Seq<char>
    decreases s.len(),
{
    if s.len() == 0 {
        Seq::empty()
    } else {
        let c = s.last();
        toml_escaped(s.drop_last()) + (if c == '\\' || c == '"' {
            seq!['\\', c]
        } else {
            seq![c]
        })
    }
}

pub open spec fn quoted(s: Seq<char>) -> Seq<char> {
    "\""@ + toml_escaped(s) + "\""@
}

/// Texts in quotes, as they are.
pub open spec fn in_quotes(values: Seq<Seq<char>>) -> Seq<Seq<char>> {
    values.map_values(|s: Seq<char>| "\""@ + s + "\""@)
}

pub open spec fn flag(b: bool) -> Seq<char> {
    if b {
        "true"@
    } else {
        "false"@
    }
}

/// A value as it is written.
pub open spec fn item_text(item: Item) -> Seq<char> {
    match item {
        Item::Text(s) => quoted(s),
        Item::Number(n) => text::decimal(n),
        Item::Flag(b) => flag(b),
        Item::Texts(values) => "["@ + text::joined(in_quotes(values), ", "@) + "]"@,
    }
}

/// The line of a field.
pub open spec fn field_text(field: Field) -> Seq<char> {
    field.0 + " = "@ + item_text(field.1) + "\n"@
}

pub open spec fn fields_text(fields: Seq<Field>) -> Seq<char>
    decreases fields.len(),
{
    if fields.len() == 0 {
        Seq::empty()
    } else {
        fields_text(fields.drop_last()) + field_text(fields.last())
    }
}

/// The lines of a section, with an empty one before them.
pub open spec fn section_text(section: Section) -> Seq<char> {
    "\n["@ + text::joined(section.path, "."@) + "]\n"@ + fields_text(section.fields)
}

pub open spec fn sections_text(sections: Seq<Section>) -> Seq<char>
    decreases sections.len(),
{
    if sections.len() == 0 {
        Seq::empty()
    } else {
        sections_text(sections.drop_last()) + section_text(sections.last())
    }
}

pub open spec fn comments_text(comments: Seq<Seq<char>>) -> Seq<char>
    decreases comments.len(),
{
    if comments.len() == 0 {
        Seq::empty()
    } else {
        comments_text(comments.drop_last()) + "# "@ + comments.last() + "\n"@
    }
}

/// A document: comments, and then its sections.
pub open spec fn document_text(comments: Seq<Seq<char>>, sections: Seq<Section>) -> Seq<char> {
    comments_text(comments) + sections_text(sections)
}

/// Whether a text holds no control character but tabs.
pub open spec fn is_printable(s: Seq<char>) -> bool {
    forall|i: int|
        0 <= i < s.len() ==> (' ' <= #[trigger] s[i] && s[i] != '\u{7f}') || s[i] == '\t'
}

/// Whether a text holds nothing that would have to be escaped.
pub open spec fn needs_no_escape(s: Seq<char>) -> bool {
    forall|i: int| 0 <= i < s.len() ==> #[trigger] s[i] != '"' && s[i] != '\\'
}

/// Whether a name is made of small letters and underscores.
pub open spec fn is_name(s: Seq<char>) -> bool {
    &&& s.len() > 0
    &&& forall|i: int| 0 <= i < s.len() ==> 'a' <= #[trigger] s[i] <= 'z' || s[i] == '_'
}

/// Whether a value is one that every reader takes.
pub open spec fn is_plain_item(item: Item) -> bool {
    match item {
        Item::Text(s) => is_printable(s),
        Item::Number(n) => n <= i64::MAX,
        Item::Flag(_) => true,
        Item::Texts(values) => forall|i: int|
            0 <= i < values.len() ==> is_printable(#[trigger] values[i]) && needs_no_escape(
                values[i],
            ),
    }
}

/// The value of the first field with this name.
pub open spec fn item_of(fields: Seq<Field>, name: Seq<char>) -> Option<Item>
    decreases fields.len(),
{
    if fields.len() == 0 {
        None
    } else if fields[0].0 == name {
        Some(fields[0].1)
    } else {
        item_of(fields.drop_first(), name)
    }
}

/// Whether a section has a section inside it under this name.
pub open spec fn has_inside(sections: Seq<Section>, path: Seq<Seq<char>>, name: Seq<char>) -> bool {
    exists|i: int| 0 <= i < sections.len() && (#[trigger] sections[i]).path == path.push(name)
}

/// Whether a section has one name or two, its fields have distinct names, and no field is
/// named like a section inside it.
pub open spec fn is_plain_section(sections: Seq<Section>, section: Section) -> bool {
    &&& 1 <= section.path.len() <= 2
    &&& forall|k: int| 0 <= k < section.path.len() ==> is_name(#[trigger] section.path[k])
    &&& forall|k: int|
        0 <= k < section.fields.len() ==> {
            &&& is_name((#[trigger] section.fields[k]).0)
            &&& is_plain_item(section.fields[k].1)
            &&& !has_inside(sections, section.path, section.fields[k].0)
        }
    &&& forall|j: int, k: int|
        #![trigger section.fields[j], section.fields[k]]
        0 <= j < k < section.fields.len() ==> section.fields[j].0 != section.fields[k].0
}

/// Whether a document has distinct plain sections and printable comments.
pub open spec fn is_plain_document(comments: Seq<Seq<char>>, sections: Seq<Section>) -> bool {
    &&& forall|i: int| 0 <= i < comments.len() ==> is_printable(#[trigger] comments[i])
    &&& forall|i: int|
        0 <= i < sections.len() ==> is_plain_section(sections, #[trigger] sections[i])
    &&& forall|i: int, j: int|
        #![trigger sections[i], sections[j]]
        0 <= i < j < sections.len() ==> sections[i].path != sections[j].path
}

/// What a value stands for.
pub open spec fn item_model(item: Item) -> TreeModel {
    match item {
        Item::Text(s) => TreeModel::Text(s),
        Item::Number(n) => TreeModel::Number(text::decimal(n)),
        Item::Flag(b) => TreeModel::Bool(b),
        Item::Texts(values) => TreeModel::List(
            values.map_values(|s: Seq<char>| TreeModel::Text(s)),
        ),
    }
}

/// The value that names lead to.
pub open spec fn value_at(t: TreeModel, path: Seq<Seq<char>>) -> Option<TreeModel>
    decreases path.len(),
{
    if path.len() == 0 {
        Some(t)
    } else {
        match value_at(t, path.drop_last()) {
            Some(inner) => inner.field(path.last()),
            None => None,
        }
    }
}

/// The field under this name of the value that names lead to.
pub open spec fn field_at(
    t: TreeModel,
    path: Seq<Seq<char>>,
    name: Seq<char>,
) -> Option<TreeModel> {
    match value_at(t, path) {
        Some(inner) => inner.field(name),
        None => None,
    }
}

/// Whether a value has the sections, each with its fields and no others but the sections
/// inside it.
pub open spec fn holds_sections(t: TreeModel, sections: Seq<Section>) -> bool {
    forall|i: int, name: Seq<char>|
        #![trigger item_of(sections[i].fields, name)]
        0 <= i < sections.len() && !has_inside(sections, sections[i].path, name) ==> {
            &&& value_at(t, sections[i].path) is Some
            &&& field_at(t, sections[i].path, name) == match item_of(sections[i].fields, name) {
                Some(item) => Some(item_model(item)),
                None => None,
            }
        }
}

/// Whether this came of reading a text as TOML: where the text is a plain document, its
/// fields.
pub open spec fn is_reading(
    s: Seq<char>,
    r: std::result::Result<TreeModel, Seq<char>>,
) -> bool {
    forall|comments: Seq<Seq<char>>, sections: Seq<Section>|
        #![trigger document_text(comments, sections)]
        is_plain_document(comments, sections) && s == document_text(comments, sections)
            ==> (r matches Ok(t) && holds_sections(t, sections))
}

proof fn lemma_item_of(fields: Seq<Field>, k: int)
    requires
        0 <= k < fields.len(),
        forall|i: int, j: int|
            #![trigger fields[i], fields[j]]
            0 <= i < j < fields.len() ==> fields[i].0 != fields[j].0,
    ensures
        item_of(fields, fields[k].0) == Some(fields[k].1),
    decreases fields.len(),
{
    if k > 0 {
        let rest = fields.drop_first();
        assert(fields[0].0 != fields[k].0);
        assert forall|i: int, j: int|
            #![trigger rest[i], rest[j]]
            0 <= i < j < rest.len() implies rest[i].0 != rest[j].0 by {
            assert(rest[i] == fields[i + 1] && rest[j] == fields[j + 1]);
        }
        lemma_item_of(rest, k - 1);
    }
}

proof fn lemma_item_of_none(fields: Seq<Field>, name: Seq<char>)
    requires
        forall|k: int| 0 <= k < fields.len() ==> (#[trigger] fields[k]).0 != name,
    ensures
        item_of(fields, name) is None,
    decreases fields.len(),
{
    if fields.len() > 0 {
        let rest = fields.drop_first();
        assert(fields[0].0 != name);
        assert forall|k: int| 0 <= k < rest.len() implies (#[trigger] rest[k]).0 != name by {
            assert(rest[k] == fields[k + 1]);
        }
        lemma_item_of_none(rest, name);
    }
}

/// What a plain document says of a field is read.
pub proof fn law_written_fields_are_read(
    comments: Seq<Seq<char>>,
    sections: Seq<Section>,
    t: TreeModel,
    i: int,
    k: int,
)
    requires
        is_plain_document(comments, sections),
        is_reading(document_text(comments, sections), Ok(t)),
        0 <= i < sections.len(),
        0 <= k < sections[i].fields.len(),
    ensures
        field_at(t, sections[i].path, sections[i].fields[k].0) == Some(
            item_model(sections[i].fields[k].1),
        ),
{
    assert(holds_sections(t, sections));
    assert(is_plain_section(sections, sections[i]));
    lemma_item_of(sections[i].fields, k);
    assert(!has_inside(sections, sections[i].path, sections[i].fields[k].0));
    assert(item_of(sections[i].fields, sections[i].fields[k].0) is Some);
}

/// What a plain document says nothing of is not read.
pub proof fn law_unwritten_fields_are_not_read(
    comments: Seq<Seq<char>>,
    sections: Seq<Section>,
    t: TreeModel,
    i: int,
    name: Seq<char>,
)
    requires
        is_plain_document(comments, sections),
        is_reading(document_text(comments, sections), Ok(t)),
        0 <= i < sections.len(),
        forall|k: int|
            0 <= k < sections[i].fields.len() ==> (#[trigger] sections[i].fields[k]).0 != name,
        !has_inside(sections, sections[i].path, name),
    ensures
        field_at(t, sections[i].path, name) is None,
{
    assert(holds_sections(t, sections));
    lemma_item_of_none(sections[i].fields, name);
    assert(item_of(sections[i].fields, name) is None);
}

proof fn lemma_more_fields(fields: Seq<Field>, field: Field)
    ensures
        fields_text(fields.push(field)) == fields_text(fields) + field_text(field),
{
    assert(fields.push(field).drop_last() =~= fields);
}

proof fn lemma_more_sections(sections: Seq<Section>, section: Section)
    ensures
        sections_text(sections.push(section)) == sections_text(sections) + section_text(section),
{
    assert(sections.push(section).drop_last() =~= sections);
}

/// Writes a document line by line.
pub struct Writer {
    out: String,
    comments: Ghost<Seq<Seq<char>>>,
    sections: Ghost<Seq<Section>>,
}

impl Writer {
    pub closed spec fn comments(&self) -> Seq<Seq<char>> {
        self.comments@
    }

    pub closed spec fn sections(&self) -> Seq<Section> {
        self.sections@
    }

    pub closed spec fn wf(&self) -> bool {
        self.out@ == document_text(self.comments@, self.sections@)
    }

    pub fn new() -> (r: Self)
        ensures
            r.wf(),
            r.comments() == Seq::<Seq<char>>::empty(),
            r.sections() == Seq::<Section>::empty(),
    {
        let out = String::new();
        assert(out@ =~= document_text(Seq::empty(), Seq::empty()));
        Writer { out, comments: Ghost(Seq::empty()), sections: Ghost(Seq::empty()) }
    }

    /// Writes a comment, before any section.
    pub fn comment(&mut self, line: &str)
        requires
            old(self).wf(),
            old(self).sections().len() == 0,
        ensures
            final(self).wf(),
            final(self).comments() == old(self).comments().push(line@),
            final(self).sections() == old(self).sections(),
    {
        let ghost was = self.comments@;
        self.out.append("# ");
        self.out.append(line);
        self.out.append("\n");
        self.comments = Ghost(was.push(line@));
        proof {
            assert(was.push(line@).drop_last() =~= was);
            assert(self.out@ =~= document_text(was.push(line@), self.sections@));
        }
    }

    fn open(&mut self, name: &str, path: Ghost<Seq<Seq<char>>>)
        requires
            old(self).wf(),
            name@ == text::joined(path@, "."@),
        ensures
            final(self).wf(),
            final(self).comments() == old(self).comments(),
            final(self).sections() == old(self).sections().push(
                (Section { path: path@, fields: Seq::empty() }),
            ),
    {
        let ghost was = self.sections@;
        let ghost new = Section { path: path@, fields: Seq::empty() };
        self.out.append("\n[");
        self.out.append(name);
        self.out.append("]\n");
        self.sections = Ghost(was.push(new));
        proof {
            lemma_more_sections(was, new);
            assert(self.out@ =~= document_text(self.comments@, was.push(new)));
        }
    }

    /// Begins a section with one name.
    pub fn section(&mut self, name: &str)
        requires
            old(self).wf(),
        ensures
            final(self).wf(),
            final(self).comments() == old(self).comments(),
            final(self).sections() == old(self).sections().push(
                (Section { path: seq![name@], fields: Seq::empty() }),
            ),
    {
        let ghost path = seq![name@];
        self.open(name, Ghost(path));
    }

    /// Begins a section inside another one.
    pub fn inner_section(&mut self, outer: &str, name: &str)
        requires
            old(self).wf(),
        ensures
            final(self).wf(),
            final(self).comments() == old(self).comments(),
            final(self).sections() == old(self).sections().push(
                (Section { path: seq![outer@, name@], fields: Seq::empty() }),
            ),
    {
        let both = text::concat3(outer, ".", name);
        let ghost path = seq![outer@, name@];
        proof {
            assert(path.drop_last() =~= seq![outer@]);
            assert(text::joined(path.drop_last(), "."@) == outer@);
            assert(both@ =~= text::joined(path, "."@));
        }
        self.open(both.as_str(), Ghost(path));
    }

    fn field(&mut self, name: &str, value: &str, item: Ghost<Item>)
        requires
            old(self).wf(),
            old(self).sections().len() > 0,
            value@ == item_text(item@),
        ensures
            final(self).wf(),
            final(self).comments() == old(self).comments(),
            final(self).sections() == with_field(old(self).sections(), (name@, item@)),
    {
        let ghost was = self.sections@;
        let ghost field: Field = (name@, item@);
        let ghost last = was.last();
        let ghost new = Section { path: last.path, fields: last.fields.push(field) };
        self.out.append(name);
        self.out.append(" = ");
        self.out.append(value);
        self.out.append("\n");
        self.sections = Ghost(was.drop_last().push(new));
        proof {
            lemma_more_fields(last.fields, field);
            lemma_more_sections(was.drop_last(), new);
            assert(was.drop_last().push(last) =~= was);
            lemma_more_sections(was.drop_last(), last);
            assert(self.out@ =~= document_text(self.comments@, self.sections@));
        }
    }

    /// Writes a field that is a text.
    pub fn text_field(&mut self, name: &str, value: &str)
        requires
            old(self).wf(),
            old(self).sections().len() > 0,
        ensures
            final(self).wf(),
            final(self).comments() == old(self).comments(),
            final(self).sections() == with_field(
                old(self).sections(),
                (name@, Item::Text(value@)),
            ),
    {
        let shown = text::concat3("\"", escape_toml(value).as_str(), "\"");
        self.field(name, shown.as_str(), Ghost(Item::Text(value@)));
    }

    /// Writes a field that is a whole number.
    pub fn number_field(&mut self, name: &str, value: u64)
        requires
            old(self).wf(),
            old(self).sections().len() > 0,
        ensures
            final(self).wf(),
            final(self).comments() == old(self).comments(),
            final(self).sections() == with_field(
                old(self).sections(),
                (name@, Item::Number(value as nat)),
            ),
    {
        let shown = text::decimal_of(value);
        self.field(name, shown.as_str(), Ghost(Item::Number(value as nat)));
    }

    /// Writes a field that is true or false.
    pub fn flag_field(&mut self, name: &str, value: bool)
        requires
            old(self).wf(),
            old(self).sections().len() > 0,
        ensures
            final(self).wf(),
            final(self).comments() == old(self).comments(),
            final(self).sections() == with_field(old(self).sections(), (name@, Item::Flag(value))),
    {
        let shown = if value {
            "true"
        } else {
            "false"
        };
        self.field(name, shown, Ghost(Item::Flag(value)));
    }

    /// Writes a field that is a list of texts, none of them escaped.
    pub fn texts_field(&mut self, name: &str, values: &Vec<String>)
        requires
            old(self).wf(),
            old(self).sections().len() > 0,
        ensures
            final(self).wf(),
            final(self).comments() == old(self).comments(),
            final(self).sections() == with_field(
                old(self).sections(),
                (name@, Item::Texts(text::views(values@))),
            ),
    {
        let ghost all = text::views(values@);
        let mut items: Vec<String> = Vec::new();
        let mut i: usize = 0;
        while i < values.len()
            invariant
                i <= values@.len(),
                all == text::views(values@),
                text::views(items@) == in_quotes(all.take(i as int)),
            decreases values.len() - i,
        {
            let item = text::concat3("\"", values[i].as_str(), "\"");
            let ghost before = items@;
            items.push(item);
            i += 1;
            proof {
                assert(text::views(items@) =~= text::views(before).push(item@));
                assert(text::views(items@) =~= in_quotes(all.take(i as int)));
            }
        }
        assert(all.take(i as int) =~= all);
        let shown = text::concat3("[", text::join(&items, ", ").as_str(), "]");
        self.field(name, shown.as_str(), Ghost(Item::Texts(all)));
    }

    /// What was written.
    pub fn finish(self) -> (r: String)
        requires
            self.wf(),
        ensures
            r@ == document_text(self.comments(), self.sections()),
    {
        self.out
    }
}

/// The sections with one field more in the last of them.
pub open spec fn with_field(sections: Seq<Section>, field: Field) -> Seq<Section> {
    let last = sections.last();
    sections.drop_last().push(Section { path: last.path, fields: last.fields.push(field) })
}

} // verus!
