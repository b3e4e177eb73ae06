//! Values of JSON and TOML documents.

use crate::document::is_reading;
use crate::text;
use vstd::prelude::*;

verus! {

/// A value of a document. A number is kept as it is written, and so is a date of TOML.
#[derive(Debug)]
pub enum Tree {
    Null,
    Bool(bool),
    Number(String),
    Text(String),
    List(Vec<Tree>),
    Object(Vec<(String, Tree)>),
}

/// What a `Tree` stands for.
pub enum TreeModel {
    Null,
    Bool(bool),
    Number(Seq<char>),
    Text(Seq<char>),
    List(Seq<TreeModel>),
    Object(Seq<(Seq<char>, TreeModel)>),
}

/// What a value stands for.
pub open spec fn model(t: Tree) -> TreeModel
    decreases t,
{
    match t {
        Tree::Null => TreeModel::Null,
        Tree::Bool(b) => TreeModel::Bool(b),
        Tree::Number(n) => TreeModel::Number(n@),
        Tree::Text(s) => TreeModel::Text(s@),
        Tree::List(items) => TreeModel::List(
            Seq::new(
                items@.len(),
                |i: int|
                    if 0 <= i < items@.len() {
                        model(items@[i])
                    } else {
                        TreeModel::Null
                    },
            ),
        ),
        Tree::Object(fields) => TreeModel::Object(
            Seq::new(
                fields@.len(),
                |i: int|
                    if 0 <= i < fields@.len() {
                        (fields@[i].0@, model(fields@[i].1))
                    } else {
                        (Seq::empty(), TreeModel::Null)
                    },
            ),
        ),
    }
}

impl View for Tree {
    type V = TreeModel;

    open spec fn view(&self) -> TreeModel {
        model(*self)
    }
}

/// The first field with this name.
pub open spec fn field_of(fields: Seq<(Seq<char>, TreeModel)>, key: Seq<char>) -> Option<TreeModel>
    decreases fields.len(),
{
    if fields.len() == 0 {
        None
    } else if fields[0].0 == key {
        Some(fields[0].1)
    } else {
        field_of(fields.drop_first(), key)
    }
}

impl TreeModel {
    /// The field with this name, where the value is an object that has it.
    pub open spec fn field(self, key: Seq<char>) -> Option<TreeModel> {
        match self {
            TreeModel::Object(fields) => field_of(fields, key),
            _ => None,
        }
    }

    pub open spec fn text(self) -> Option<Seq<char>> {
        match self {
            TreeModel::Text(s) => Some(s),
            _ => None,
        }
    }

    pub open spec fn items(self) -> Option<Seq<TreeModel>> {
        match self {
            TreeModel::List(items) => Some(items),
            _ => None,
        }
    }

    /// The text of the field with this name.
    pub open spec fn text_field(self, key: Seq<char>) -> Option<Seq<char>> {
        match self.field(key) {
            Some(value) => value.text(),
            None => None,
        }
    }
}

impl Tree {
    /// The field with this name, where the value is an object that has it.
    pub fn get(&self, key: &str) -> (r: Option<&Tree>)
        ensures
            match r {
                Some(value) => self@.field(key@) == Some(value@),
                None => self@.field(key@) is None,
            },
    {
        match self {
            Tree::Object(fields) => {
                let ghost all = self@->Object_0;
                let mut i: usize = 0;
                assert(all.skip(0) =~= all);
                while i < fields.len()
                    invariant
                        i <= fields@.len(),
                        self@ == TreeModel::Object(all),
                        all.len() == fields@.len(),
                        forall|k: int|
                            0 <= k < fields@.len() ==> #[trigger] all[k] == (
                                fields@[k].0@,
                                fields@[k].1@,
                            ),
                        field_of(all, key@) == field_of(all.skip(i as int), key@),
                    decreases fields.len() - i,
                {
                    assert(all.skip(i as int)[0] == all[i as int]);
                    assert(all.skip(i as int).drop_first() =~= all.skip(i + 1));
                    if text::same(fields[i].0.as_str(), key) {
                        return Some(&fields[i].1);
                    }
                    i += 1;
                }
                None
            },
            _ => None,
        }
    }

    pub fn as_text(&self) -> (r: Option<&str>)
        ensures
            match r {
                Some(s) => self@.text() == Some(s@),
                None => self@.text() is None,
            },
    {
        match self {
            Tree::Text(s) => Some(s.as_str()),
            _ => None,
        }
    }

    /// The text of the field with this name.
    pub fn get_text(&self, key: &str) -> (r: Option<&str>)
        ensures
            match r {
                Some(s) => self@.text_field(key@) == Some(s@),
                None => self@.text_field(key@) is None,
            },
    {
        match self.get(key) {
            Some(value) => value.as_text(),
            None => None,
        }
    }
}

/// What the fields of an object stand for.
pub open spec fn fields_model(fields: Seq<(String, Tree)>) -> Seq<(Seq<char>, TreeModel)> {
    fields.map_values(|f: (String, Tree)| (f.0@, f.1@))
}

/// What the items of a list stand for.
pub open spec fn items_model(items: Seq<Tree>) -> Seq<TreeModel> {
    items.map_values(|t: Tree| t@)
}

/// A value that is a text.
pub fn text_value(s: &str) -> (r: Tree)
    ensures
        r@ == TreeModel::Text(s@),
{
    Tree::Text(s.to_owned())
}

pub open spec fn optional_text(s: Option<Seq<char>>) -> TreeModel {
    match s {
        Some(s) => TreeModel::Text(s),
        None => TreeModel::Null,
    }
}

/// A value that is a text, or nothing.
pub fn optional_value(s: &Option<String>) -> (r: Tree)
    ensures
        r@ == optional_text(text::text_of(*s)),
{
    match s {
        Some(s) => text_value(s.as_str()),
        None => Tree::Null,
    }
}

/// A value that is a whole number.
pub fn number_value(n: u64) -> (r: Tree)
    ensures
        r@ == TreeModel::Number(text::decimal(n as nat)),
{
    Tree::Number(text::decimal_of(n))
}

/// A value that is true or false.
pub fn flag_value(b: bool) -> (r: Tree)
    ensures
        r@ == TreeModel::Bool(b),
{
    Tree::Bool(b)
}

/// A list of values.
pub fn list_value(items: Vec<Tree>) -> (r: Tree)
    ensures
        r@ == TreeModel::List(items_model(items@)),
{
    let r = Tree::List(items);
    assert(r@->List_0 =~= items_model(items@));
    r
}

/// An object with these fields.
pub fn object_value(fields: Vec<(String, Tree)>) -> (r: Tree)
    ensures
        r@ == TreeModel::Object(fields_model(fields@)),
{
    let r = Tree::Object(fields);
    assert(r@->Object_0 =~= fields_model(fields@));
    r
}

/// Adds a field.
pub fn put(fields: &mut Vec<(String, Tree)>, key: &str, value: Tree)
    ensures
        fields_model(final(fields)@) == fields_model(old(fields)@).push((key@, value@)),
{
    let ghost was = fields@;
    fields.push((key.to_owned(), value));
    assert(fields_model(fields@) =~= fields_model(was).push((key@, value@)));
}

/// `serde_json::Value`, which `serde_json::from_str` reads into.
#[verifier::external_type_specification]
#[verifier::external_body]
pub struct ExJsonValue(serde_json::Value);

/// `toml::Value`, which `toml::from_str` reads into.
#[verifier::external_type_specification]
#[verifier::external_body]
pub struct ExTomlValue(toml::Value);

/// What `serde_json::from_str` makes of a text: the value, or the text of its error.
pub uninterp spec fn json_parsed(s: Seq<char>) -> std::result::Result<TreeModel, Seq<char>>;

/// What `toml::from_str` makes of a text: the value, or the text of its error.
pub uninterp spec fn toml_parsed(s: Seq<char>) -> std::result::Result<TreeModel, Seq<char>>;

/// A `serde_json::Value` as a `Tree`, variant for variant.
#[verifier::external_body]
fn tree_of_json(value: serde_json::Value) -> (r: Tree) {
    match value {
        serde_json::Value::Null => Tree::Null,
        serde_json::Value::Bool(b) => Tree::Bool(b),
        serde_json::Value::Number(n) => Tree::Number(n.to_string()),
        serde_json::Value::String(s) => Tree::Text(s),
        serde_json::Value::Array(v) => Tree::List(v.into_iter().map(tree_of_json).collect()),
        serde_json::Value::Object(m) => {
            Tree::Object(m.into_iter().map(|(k, v)| (k, tree_of_json(v))).collect())
        },
    }
}

/// A `toml::Value` as a `Tree`, variant for variant.
#[verifier::external_body]
fn tree_of_toml(value: toml::Value) -> (r: Tree) {
    match value {
        toml::Value::Boolean(b) => Tree::Bool(b),
        toml::Value::Integer(n) => Tree::Number(n.to_string()),
        toml::Value::Float(n) => Tree::Number(n.to_string()),
        toml::Value::Datetime(d) => Tree::Number(d.to_string()),
        toml::Value::String(s) => Tree::Text(s),
        toml::Value::Array(v) => Tree::List(v.into_iter().map(tree_of_toml).collect()),
        toml::Value::Table(t) => {
            Tree::Object(t.into_iter().map(|(k, v)| (k, tree_of_toml(v))).collect())
        },
    }
}

/// `serde_json::from_str`, with the value as a `Tree` and the error as its text. Claims
/// that the outcome depends on the text alone.
#[verifier::external_body]
pub(crate) fn parse_json(value: &str) -> (r: std::result::Result<Tree, String>)
    ensures
        match r {
            Ok(t) => json_parsed(value@) matches Ok(p) && p == t@,
            Err(e) => json_parsed(value@) matches Err(p) && p == e@,
        },
{
    match serde_json::from_str::<serde_json::Value>(value) {
        Ok(v) => Ok(tree_of_json(v)),
        Err(e) => Err(e.to_string()),
    }
}

/// `toml::from_str`, with the value as a `Tree` and the error as its text. Claims that
/// the outcome depends on the text alone, and that a plain document is read as it is
/// written: every section is a table under its names, with the fields that stand in it and
/// no others but the tables inside it. A basic string is read with its escapes undone, a
/// whole number as that number, and a list of strings in its order.
#[verifier::external_body]
pub(crate) fn parse_toml(value: &str) -> (r: std::result::Result<Tree, String>)
    ensures
        match r {
            Ok(t) => toml_parsed(value@) matches Ok(p) && p == t@ && is_reading(value@, Ok(t@)),
            Err(e) => toml_parsed(value@) matches Err(p) && p == e@ && is_reading(
                value@,
                Err(e@),
            ),
        },
{
    match toml::from_str::<toml::Value>(value) {
        Ok(v) => Ok(tree_of_toml(v)),
        Err(e) => Err(e.to_string()),
    }
}

/// What `serde_json` writes for a value, without space between its parts.
pub uninterp spec fn json_text(t: TreeModel) -> Seq<char>;

/// An object with distinct names whose values are texts, truth values, nothing, or
/// whole numbers.
pub open spec fn is_flat(t: TreeModel) -> bool {
    &&& t is Object
    &&& forall|i: int|
        #![trigger t->Object_0[i]]
        0 <= i < t->Object_0.len() ==> is_leaf(t->Object_0[i].1)
    &&& forall|i: int, j: int|
        #![trigger t->Object_0[i], t->Object_0[j]]
        0 <= i < j < t->Object_0.len() ==> t->Object_0[i].0 != t->Object_0[j].0
}

pub open spec fn is_leaf(t: TreeModel) -> bool {
    match t {
        TreeModel::List(_) | TreeModel::Object(_) => false,
        TreeModel::Number(s) => exists|n: u64| s == #[trigger] text::decimal(n as nat),
        _ => true,
    }
}

/// Whether `s` is one line, from which the fields of a flat object are read back.
pub open spec fn is_json_line(s: Seq<char>, t: TreeModel) -> bool {
    &&& !s.contains('\n')
    &&& is_flat(t) ==> {
        &&& json_parsed(s) matches Ok(p)
        &&& forall|key: Seq<char>| #[trigger] p.field(key) == t.field(key)
    }
}

/// A `Tree` as a `serde_json::Value`, variant for variant. A number that
/// `serde_json::Number` does not read is left out as null.
#[verifier::external_body]
fn json_of_tree(value: &Tree) -> (r: serde_json::Value) {
    match value {
        Tree::Null => serde_json::Value::Null,
        Tree::Bool(b) => serde_json::Value::Bool(*b),
        Tree::Number(n) => {
            n.parse::<serde_json::Number>().map_or(serde_json::Value::Null, Into::into)
        },
        Tree::Text(s) => serde_json::Value::String(s.clone()),
        Tree::List(v) => serde_json::Value::Array(v.iter().map(json_of_tree).collect()),
        Tree::Object(m) => serde_json::Value::Object(
            m.iter().map(|(k, v)| (k.clone(), json_of_tree(v))).collect(),
        ),
    }
}

/// `serde_json::Value::to_string`. Claims that the text depends on the value alone, that
/// it is one line, and that `serde_json::from_str` reads the fields of a flat object
/// back from it.
#[verifier::external_body]
pub(crate) fn write_json(value: &Tree) -> (r: String)
    ensures
        r@ == json_text(value@),
        is_json_line(r@, value@),
{
    json_of_tree(value).to_string()
}

/// The fields as they are written: name, colon and value of each.
pub open spec fn field_texts(fields: Seq<(Seq<char>, TreeModel)>) -> Seq<Seq<char>>
    decreases fields,
{
    if fields.len() == 0 {
        Seq::empty()
    } else {
        let last = fields[fields.len() - 1];
        field_texts(fields.subrange(0, fields.len() - 1)).push(
            json_text(TreeModel::Text(last.0)) + ":"@ + ordered_text(last.1),
        )
    }
}

/// A value as it is written with the fields of objects in the order in which they were
/// put.
pub open spec fn ordered_text(t: TreeModel) -> Seq<char>
    decreases t,
{
    match t {
        TreeModel::Object(fields) => "{"@ + text::joined(field_texts(fields), ","@) + "}"@,
        _ => json_text(t),
    }
}

/// Writes a value with the fields of objects in the order in which they were put.
pub fn write_ordered(value: &Tree) -> (r: String)
    ensures
        r@ == ordered_text(value@),
    decreases value,
{
    match value {
        Tree::Object(fields) => {
            let ghost all = value@->Object_0;
            let mut parts: Vec<String> = Vec::new();
            let mut i: usize = 0;
            assert(text::views(parts@) =~= field_texts(all.take(0)));
            while i < fields.len()
                invariant
                    i <= fields@.len(),
                    all.len() == fields@.len(),
                    *value == Tree::Object(*fields),
                    value@ == TreeModel::Object(all),
                    forall|k: int|
                        0 <= k < fields@.len() ==> #[trigger] all[k] == (
                            fields@[k].0@,
                            fields@[k].1@,
                        ),
                    text::views(parts@) == field_texts(all.take(i as int)),
                decreases fields.len() - i,
            {
                let ghost before = text::views(parts@);
                assert(decreases_to!(*value => fields@[i as int].1));
                let key = write_json(&Tree::Text(fields[i].0.clone()));
                let part = write_ordered(&fields[i].1);
                parts.push(text::concat3(key.as_str(), ":", part.as_str()));
                i += 1;
                proof {
                    let now = all.take(i as int);
                    assert(now.subrange(0, now.len() - 1) =~= all.take(i - 1));
                    assert(now[now.len() - 1] == all[i - 1]);
                    assert(text::views(parts@) =~= before.push(parts@.last()@));
                }
            }
            assert(all.take(i as int) =~= all);
            let body = text::join(&parts, ",");
            text::concat3("{", body.as_str(), "}")
        },
        _ => write_json(value),
    }
}

/// Whether an object holds this value under this name.
pub open spec fn holds_field(t: TreeModel, name: Seq<char>, value: TreeModel) -> bool {
    t matches TreeModel::Object(fields) && fields.contains((name, value))
}

/// A field is found by its name: the first that has it.
pub proof fn law_fields_are_found_by_their_names(
    fields: Seq<(Seq<char>, TreeModel)>,
    key: Seq<char>,
    i: int,
)
    requires
        0 <= i <= fields.len(),
        forall|k: int| 0 <= k < i ==> (#[trigger] fields[k]).0 != key,
        i < fields.len() ==> fields[i].0 == key,
    ensures
        TreeModel::Object(fields).field(key) == if i < fields.len() {
            Some(fields[i].1)
        } else {
            None
        },
    decreases fields.len(),
{
    if i > 0 {
        let rest = fields.drop_first();
        assert(fields[0].0 != key);
        assert forall|k: int| 0 <= k < i - 1 implies (#[trigger] rest[k]).0 != key by {
            assert(rest[k] == fields[k + 1]);
        }
        law_fields_are_found_by_their_names(rest, key, i - 1);
        assert(TreeModel::Object(rest).field(key) == field_of(rest, key));
    }
}

/// What is there is told as a text, and what is not as null.
pub proof fn law_what_is_missing_is_null(s: Seq<char>)
    ensures
        optional_text(Some(s)) == TreeModel::Text(s),
        optional_text(None) == TreeModel::Null,
{
}

} // verus!
