//! JSON values, and their exchange with `serde_json`, which reads and writes the text.

use crate::shape::{shape, written_once};
use crate::text::same;
use vstd::prelude::*;
use vstd::utf8::encode_utf8;

verus! {

/// A number with a fractional part or an exponent, as `serde_json` read it. Only its being
/// fractional matters here; the number itself is carried through.
#[derive(Debug, PartialEq, Eq)]
pub struct Fraction(serde_json::Number);

/// The numbers of `serde_json`. Nothing is known here of what one holds.
#[verifier::external_type_specification]
#[verifier::external_body]
pub struct ExNumber(serde_json::Number);

/// A JSON number. Whole numbers lie between `i64::MIN` and `u64::MAX`.
#[derive(Debug, PartialEq, Eq)]
pub enum JsonNumber {
    /// A whole number that is not negative.
    PosInt(u64),
    /// A whole number that may be negative.
    NegInt(i64),
    /// Any other number.
    Float(Fraction),
}

/// A JSON object: its members in the order in which they were added, no two with one name.
#[derive(Debug, PartialEq, Eq)]
pub struct JsonObject {
    entries: Vec<(String, Json)>,
}

/// A JSON value.
#[derive(Debug, PartialEq, Eq)]
pub enum Json {
    /// `null`
    Null,
    /// `true` or `false`
    Bool(bool),
    /// A number.
    Number(JsonNumber),
    /// A string.
    String(String),
    /// A list of values.
    Array(Vec<Json>),
    /// Named values.
    Object(JsonObject),
}

/// What a JSON value says.
pub enum Tree {
    /// `null`
    Null,
    /// `true` or `false`
    Bool(bool),
    /// A whole number.
    Int(int),
    /// Any other number.
    Float(Fraction),
    /// A string.
    String(Seq<char>),
    /// A list of values.
    Array(Seq<Tree>),
    /// Named values, in order.
    Object(Seq<(Seq<char>, Tree)>),
}

/// Why a text was not read as JSON, as `serde_json` classifies it.
#[derive(Clone, Copy, Debug, PartialEq, Eq, Structural)]
pub enum Category {
    /// Reading or writing failed.
    Io,
    /// The text is not JSON.
    Syntax,
    /// The text is JSON, but not of the expected form.
    Data,
    /// The text ends too early.
    Eof,
}

/// Where and why reading a JSON text failed.
#[derive(Clone, Copy, Debug, PartialEq, Eq, Structural)]
pub struct JsonError {
    /// The line, counted from one; zero where it is not known.
    pub line: usize,
    /// The column, counted from one; zero where it is not known.
    pub column: usize,
    /// The kind of failure.
    pub category: Category,
}

impl View for JsonNumber {
    type V = Tree;

    open spec fn view(&self) -> Tree {
        match *self {
            JsonNumber::PosInt(u) => Tree::Int(u as int),
            JsonNumber::NegInt(i) => Tree::Int(i as int),
            JsonNumber::Float(f) => Tree::Float(f),
        }
    }
}

/// What the value `v` says.
pub open spec fn tree(v: Json) -> Tree
    decreases v,
{
    match v {
        Json::Null => Tree::Null,
        Json::Bool(b) => Tree::Bool(b),
        Json::Number(n) => n@,
        Json::String(s) => Tree::String(s@),
        Json::Array(items) => Tree::Array(
            Seq::new(
                items@.len(),
                |i: int|
                    if 0 <= i < items@.len() {
                        tree(items@[i])
                    } else {
                        Tree::Null
                    },
            ),
        ),
        Json::Object(o) => Tree::Object(members(o)),
    }
}

/// The members of the object `o`.
pub closed spec fn members(o: JsonObject) -> Seq<(Seq<char>, Tree)>
    decreases o,
{
    Seq::new(
        o.entries@.len(),
        |i: int|
            if 0 <= i < o.entries@.len() {
                (o.entries@[i].0@, tree(o.entries@[i].1))
            } else {
                (Seq::empty(), Tree::Null)
            },
    )
}

/// The members of `o` are its entries, name by name and value by value.
broadcast proof fn lemma_members(o: JsonObject)
    ensures
        (#[trigger] members(o)).len() == o.entries@.len(),
        forall|i: int|
            0 <= i < o.entries@.len() ==> #[trigger] members(o)[i] == (
                o.entries@[i].0@,
                tree(o.entries@[i].1),
            ),
{
}

impl View for Json {
    type V = Tree;

    open spec fn view(&self) -> Tree {
        tree(*self)
    }
}

impl View for JsonObject {
    type V = Seq<(Seq<char>, Tree)>;

    open spec fn view(&self) -> Seq<(Seq<char>, Tree)> {
        members(*self)
    }
}

/// No two members have one name.
pub open spec fn distinct_names<T>(m: Seq<(Seq<char>, T)>) -> bool {
    forall|i: int, j: int| 0 <= i < j < m.len() ==> m[i].0 != m[j].0
}

/// The position of the first member named `name`, if there is one.
pub open spec fn find_name<T>(m: Seq<(Seq<char>, T)>, name: Seq<char>) -> Option<int>
    decreases m.len(),
{
    if m.len() == 0 {
        None
    } else if m[0].0 == name {
        Some(0)
    } else {
        match find_name(m.skip(1), name) {
            Some(i) => Some(i + 1),
            None => None,
        }
    }
}

/// The members `m` after `name` was given the value `value`: in place of its old value where it
/// had one, else behind the others.
pub open spec fn with_member<T>(m: Seq<(Seq<char>, T)>, name: Seq<char>, value: T) -> Seq<
    (Seq<char>, T),
> {
    match find_name(m, name) {
        Some(i) => m.update(i, (name, value)),
        None => m.push((name, value)),
    }
}

/// `find_name` finds exactly the first member of that name.
pub proof fn lemma_find_name<T>(m: Seq<(Seq<char>, T)>, name: Seq<char>)
    ensures
        match find_name(m, name) {
            Some(i) => 0 <= i < m.len() && m[i].0 == name && (forall|j: int|
                0 <= j < i ==> m[j].0 != name),
            None => forall|j: int| 0 <= j < m.len() ==> m[j].0 != name,
        },
    decreases m.len(),
{
    if m.len() > 0 && m[0].0 != name {
        let rest = m.skip(1);
        lemma_find_name(rest, name);
        assert forall|j: int| 1 <= j < m.len() implies m[j] == rest[j - 1] by {}
    }
}

/// The value of the first member named `name`, if there is one.
pub open spec fn lookup<T>(m: Seq<(Seq<char>, T)>, name: Seq<char>) -> Option<T> {
    match find_name(m, name) {
        Some(i) => Some(m[i].1),
        None => None,
    }
}

/// Members with distinct names are found wherever they stand.
pub proof fn lemma_lookup_at<T>(m: Seq<(Seq<char>, T)>, i: int)
    requires
        distinct_names(m),
        0 <= i < m.len(),
    ensures
        find_name(m, m[i].0) == Some(i),
        lookup(m, m[i].0) == Some(m[i].1),
{
    lemma_find_name(m, m[i].0);
    let k = find_name(m, m[i].0)->0;
    if k < i {
        assert(m[k].0 != m[i].0);
    }
}

/// What the entries of an object say.
pub open spec fn entry_members(entries: Seq<(String, Json)>) -> Seq<(Seq<char>, Tree)> {
    entries.map_values(|e: (String, Json)| (e.0@, e.1@))
}

impl JsonObject {
    #[verifier::type_invariant]
    closed spec fn inv(self) -> bool {
        forall|i: int, j: int|
            0 <= i < j < self.entries@.len() ==> self.entries@[i].0@ != self.entries@[j].0@
    }

    /// An object without members.
    pub fn new() -> (r: JsonObject)
        ensures
            r@ == Seq::<(Seq<char>, Tree)>::empty(),
    {
        let r = JsonObject { entries: Vec::new() };
        assert(r@ =~= Seq::<(Seq<char>, Tree)>::empty());
        r
    }

    /// The number of members; no two have one name.
    pub fn len(&self) -> (n: usize)
        ensures
            n == self@.len(),
            distinct_names(self@),
    {
        broadcast use lemma_members;

        proof {
            use_type_invariant(self);
            assert forall|j: int| 0 <= j < self@.len() implies #[trigger] self@[j].0
                == self.entries@[j].0@ by {}
        }
        self.entries.len()
    }

    /// The position of the member `name`, if there is one.
    pub fn position(&self, name: &str) -> (r: Option<usize>)
        ensures
            match find_name(self@, name@) {
                Some(i) => r matches Some(k) && k == i && i < self@.len(),
                None => r is None,
            },
    {
        broadcast use lemma_members;

        proof {
            lemma_find_name(self@, name@);
        }
        let mut i: usize = 0;
        while i < self.entries.len()
            invariant
                i <= self.entries@.len(),
                forall|j: int| 0 <= j < i ==> self@[j].0 != name@,
            decreases self.entries@.len() - i,
        {
            assert(self@[i as int].0 == self.entries@[i as int].0@);
            if same(self.entries[i].0.as_str(), name) {
                proof {
                    lemma_find_name(self@, name@);
                }
                return Some(i);
            }
            i = i + 1;
        }
        None
    }

    /// The value of the member `name`, if there is one.
    pub fn get(&self, name: &str) -> (r: Option<&Json>)
        ensures
            distinct_names(self@),
            match lookup(self@, name@) {
                Some(t) => r matches Some(v) && v@ == t,
                None => r is None,
            },
    {
        broadcast use lemma_members;

        proof {
            use_type_invariant(self);
            assert forall|j: int| 0 <= j < self@.len() implies #[trigger] self@[j].0
                == self.entries@[j].0@ by {}
            lemma_find_name(self@, name@);
        }
        match self.position(name) {
            Some(i) => {
                assert(self@[i as int].1 == tree(self.entries@[i as int].1));
                Some(&self.entries[i].1)
            },
            None => None,
        }
    }

    /// The object with these entries.
    pub fn from_entries(entries: Vec<(String, Json)>) -> (r: JsonObject)
        requires
            distinct_names(entry_members(entries@)),
        ensures
            r@ == entry_members(entries@),
    {
        broadcast use lemma_members;

        assert forall|i: int, j: int| 0 <= i < j < entries@.len() implies entries@[i].0@
            != entries@[j].0@ by {
            assert(entry_members(entries@)[i].0 != entry_members(entries@)[j].0);
        }
        let r = JsonObject { entries };
        assert(r@ =~= entry_members(entries@));
        r
    }

    /// The name of the member at position `i`.
    pub fn name_at(&self, i: usize) -> (r: &str)
        requires
            i < self@.len(),
        ensures
            r@ == self@[i as int].0,
    {
        broadcast use lemma_members;

        assert(self@[i as int].0 == self.entries@[i as int].0@);
        self.entries[i].0.as_str()
    }

    /// The value of the member at position `i`.
    pub fn value_at(&self, i: usize) -> (r: &Json)
        requires
            i < self@.len(),
        ensures
            r@ == self@[i as int].1,
    {
        broadcast use lemma_members;

        assert(self@[i as int].1 == self.entries@[i as int].1@);
        &self.entries[i].1
    }

    /// Gives the member `name` the value `value`.
    pub fn insert(&mut self, name: String, value: Json)
        ensures
            final(self)@ == with_member(old(self)@, name@, value@),
    {
        broadcast use lemma_members;

        proof {
            use_type_invariant(&*self);
            lemma_find_name(self@, name@);
        }
        let position = self.position(name.as_str());
        let ghost wanted = name@;
        let ghost kept = self.entries@;
        assert forall|j: int| 0 <= j < kept.len() implies #[trigger] kept[j].0@ == self@[j].0 by {}
        let mut entries: Vec<(String, Json)> = Vec::new();
        std::mem::swap(&mut entries, &mut self.entries);
        match position {
            Some(i) => {
                entries.set(i, (name, value));
                assert forall|j: int, k: int| 0 <= j < k < entries@.len() implies entries@[j].0@
                    != entries@[k].0@ by {
                    assert(kept[i as int].0@ == wanted);
                    assert(kept[j].0@ != kept[k].0@);
                }
            },
            None => {
                entries.push((name, value));
                assert forall|j: int, k: int| 0 <= j < k < entries@.len() implies entries@[j].0@
                    != entries@[k].0@ by {
                    assert(kept[j].0@ != wanted);
                    if k < kept.len() {
                        assert(kept[j].0@ != kept[k].0@);
                    }
                }
            },
        }
        self.entries = entries;
        assert(self@ =~= with_member(old(self)@, name@, value@));
    }
}

/// The array made of the values `items`.
pub open spec fn array_tree(items: Seq<Json>) -> Tree {
    Tree::Array(items.map_values(|v: Json| v@))
}

/// An array says what its items say.
pub broadcast proof fn lemma_array(items: Vec<Json>)
    ensures
        #[trigger] tree(Json::Array(items)) == array_tree(items@),
{
    assert(tree(Json::Array(items))->Array_0 =~= array_tree(items@)->Array_0);
}

/// The values of `serde_json`. `json_tree` names what one says.
#[verifier::external_type_specification]
#[verifier::external_body]
pub struct ExValue(serde_json::Value);

/// What a value of `serde_json` says: an enum of null, booleans, numbers, strings, lists of
/// values and maps from names to values.
pub uninterp spec fn json_tree(v: serde_json::Value) -> Tree;

/// What `serde_json::from_slice` makes of a text: a value, or where and why it is none.
pub uninterp spec fn json_parse(text: Seq<u8>) -> Result<Tree, JsonError>;

/// What `serde_json` makes of the beginning of a text: the value that `Deserialize` for
/// `serde_json::Value` reads out of a `serde_json::Deserializer`, or where and why there is none.
pub uninterp spec fn json_first(text: Seq<u8>) -> Result<Tree, JsonError>;

/// The text that `serde_json::to_string` writes for a value.
pub uninterp spec fn json_text(t: Tree) -> Seq<char>;

/// The outermost layer of a value of `serde_json`.
pub enum Node {
    /// `null`
    Null,
    /// `true` or `false`
    Bool(bool),
    /// A number.
    Number(JsonNumber),
    /// A string.
    String(String),
    /// A list of values.
    Array(Vec<serde_json::Value>),
    /// Named values.
    Object(Vec<(String, serde_json::Value)>),
}

/// What a value with this outermost layer says.
pub open spec fn node_tree(n: Node) -> Tree {
    match n {
        Node::Null => Tree::Null,
        Node::Bool(b) => Tree::Bool(b),
        Node::Number(n) => n@,
        Node::String(s) => Tree::String(s@),
        Node::Array(items) => Tree::Array(items@.map_values(|v: serde_json::Value| json_tree(v))),
        Node::Object(entries) => Tree::Object(node_members(entries@)),
    }
}

/// The members that the entries of a `serde_json` map say.
pub open spec fn node_members(entries: Seq<(String, serde_json::Value)>) -> Seq<
    (Seq<char>, Tree),
> {
    entries.map_values(|e: (String, serde_json::Value)| (e.0@, json_tree(e.1)))
}

/// Takes the outermost layer off a `serde_json::Value`, variant by variant. Whole numbers are
/// told from others by `Number::as_u64` and `Number::as_i64`; a `Map` gives its entries in
/// insertion order, each name once.
#[verifier::external_body]
fn open_value(v: serde_json::Value) -> (r: Node)
    ensures
        node_tree(r) == json_tree(v),
        r matches Node::Object(entries) ==> distinct_names(node_members(entries@)),
{
    match v {
        serde_json::Value::Null => Node::Null,
        serde_json::Value::Bool(b) => Node::Bool(b),
        serde_json::Value::Number(n) => Node::Number(match (n.as_u64(), n.as_i64()) {
            (Some(u), _) => JsonNumber::PosInt(u),
            (None, Some(i)) => JsonNumber::NegInt(i),
            (None, None) => JsonNumber::Float(Fraction(n)),
        }),
        serde_json::Value::String(s) => Node::String(s),
        serde_json::Value::Array(items) => Node::Array(items),
        serde_json::Value::Object(entries) => Node::Object(entries.into_iter().collect()),
    }
}

/// Makes a `serde_json::Value` of an outermost layer, variant by variant. A `Map` is collected
/// from entries with distinct names, and so keeps them all, in their order.
#[verifier::external_body]
fn close_value(n: Node) -> (r: serde_json::Value)
    requires
        n matches Node::Object(entries) ==> distinct_names(node_members(entries@)),
    ensures
        json_tree(r) == node_tree(n),
{
    match n {
        Node::Null => serde_json::Value::Null,
        Node::Bool(b) => serde_json::Value::Bool(b),
        Node::Number(JsonNumber::PosInt(u)) => serde_json::Value::Number(u.into()),
        Node::Number(JsonNumber::NegInt(i)) => serde_json::Value::Number(i.into()),
        Node::Number(JsonNumber::Float(f)) => serde_json::Value::Number(f.0),
        Node::String(s) => serde_json::Value::String(s),
        Node::Array(items) => serde_json::Value::Array(items),
        Node::Object(entries) => serde_json::Value::Object(entries.into_iter().collect()),
    }
}

/// `Number::clone`, which derives from the clones of an integer or a float, gives the same
/// number.
pub assume_specification[ <serde_json::Number as std::clone::Clone>::clone ](
    n: &serde_json::Number,
) -> (r: serde_json::Number)
    ensures
        r == *n,
;

/// The value is written in a way that it is read back from: every number is whole and in range,
/// no object has two members of one name, and no list or object lies inside more than `depth`
/// others.
pub open spec fn readable(t: Tree, depth: nat) -> bool
    decreases depth,
{
    match t {
        Tree::Null | Tree::Bool(_) | Tree::String(_) => true,
        Tree::Int(i) => i64::MIN <= i <= u64::MAX,
        Tree::Float(_) => false,
        Tree::Array(s) => depth > 0 && forall|i: int|
            0 <= i < s.len() ==> readable(#[trigger] s[i], (depth - 1) as nat),
        Tree::Object(m) => depth > 0 && distinct_names(m) && forall|i: int|
            0 <= i < m.len() ==> readable((#[trigger] m[i]).1, (depth - 1) as nat),
    }
}

/// How a value is written by the `Debug` of `serde_json::Value`.
pub uninterp spec fn json_debug(t: Tree) -> Seq<char>;

/// Formats a `serde_json::Value` with `{:?}`, its `Debug`, whose result depends on the value alone.
#[verifier::external_body]
fn debug_value(v: &serde_json::Value) -> (r: String)
    ensures
        r@ == json_debug(json_tree(*v)),
{
    format!("{:?}", v)
}

/// What a text begins with, and what is wrong with what follows, if something is; or where and why
/// it does not begin with a value.
pub open spec fn reading(text: Seq<u8>) -> Result<(Tree, Option<JsonError>), JsonError> {
    match json_first(text) {
        Ok(t) => Ok(
            (
                t,
                match json_parse(text) {
                    Ok(_) => None,
                    Err(e) => Some(e),
                },
            ),
        ),
        Err(e) => Err(e),
    }
}

/// The text is read as the value `t`, and writes each member of its objects once.
pub open spec fn reads_as(text: Seq<u8>, t: Tree) -> bool {
    &&& json_parse(text) == Ok::<Tree, JsonError>(t)
    &&& json_first(text) == Ok::<Tree, JsonError>(t)
    &&& written_once(shape(text), t)
}

/// Calls `serde_json::from_slice`, which reads a value from the beginning of the text, and accepts
/// it if nothing but whitespace follows. An error is taken over by `Error::line`, `Error::column`
/// and `Error::classify`.
#[verifier::external_body]
fn parse_value(text: &[u8]) -> (r: Result<serde_json::Value, JsonError>)
    ensures
        match r {
            Ok(v) => json_parse(text@) == Ok::<Tree, JsonError>(json_tree(v)) && json_first(text@)
                == Ok::<Tree, JsonError>(json_tree(v)),
            Err(e) => json_parse(text@) == Err::<Tree, JsonError>(e),
        },
{
    serde_json::from_slice(text).map_err(
        |e: serde_json::Error|
            JsonError {
                line: e.line(),
                column: e.column(),
                category: match e.classify() {
                    serde_json::error::Category::Io => Category::Io,
                    serde_json::error::Category::Syntax => Category::Syntax,
                    serde_json::error::Category::Data => Category::Data,
                    serde_json::error::Category::Eof => Category::Eof,
                },
            },
    )
}

/// Calls `Deserialize::deserialize` for `serde_json::Value` on `serde_json::Deserializer::from_slice`,
/// which is what `serde_json::from_slice` does before it looks at what follows the value. An error is
/// taken over by `Error::line`, `Error::column` and `Error::classify`.
#[verifier::external_body]
fn parse_first(text: &[u8]) -> (r: Result<serde_json::Value, JsonError>)
    ensures
        match r {
            Ok(v) => json_first(text@) == Ok::<Tree, JsonError>(json_tree(v)),
            Err(e) => json_first(text@) == Err::<Tree, JsonError>(e),
        },
{
    let mut reader = serde_json::Deserializer::from_slice(text);
    serde::Deserialize::deserialize(&mut reader).map_err(
        |e: serde_json::Error|
            JsonError {
                line: e.line(),
                column: e.column(),
                category: match e.classify() {
                    serde_json::error::Category::Io => Category::Io,
                    serde_json::error::Category::Syntax => Category::Syntax,
                    serde_json::error::Category::Data => Category::Data,
                    serde_json::error::Category::Eof => Category::Eof,
                },
            },
    )
}

/// Calls `serde_json::to_string`, which does not fail on a `serde_json::Value`. A value without
/// fractions, nested no deeper than the reader's recursion limit of 128 allows, is read back from
/// its text by `serde_json::from_slice`; and the text has each member of a map once, with a comma
/// between two members or items and none elsewhere outside of strings.
#[verifier::external_body]
fn write_value(v: &serde_json::Value) -> (r: String)
    ensures
        r@ == json_text(json_tree(*v)),
        readable(json_tree(*v), 127) ==> reads_as(encode_utf8(r@), json_tree(*v)),
{
    serde_json::to_string(v).expect("a JSON value is always written")
}

/// Calls `serde_json::to_vec`, which gives the bytes of the text that `serde_json::to_string`
/// gives.
#[verifier::external_body]
fn write_bytes(v: &serde_json::Value) -> (r: Vec<u8>)
    ensures
        r@ == encode_utf8(json_text(json_tree(*v))),
        readable(json_tree(*v), 127) ==> reads_as(r@, json_tree(*v)),
{
    serde_json::to_vec(v).expect("a JSON value is always written")
}

impl Json {
    /// The value that the `serde_json` value `v` says.
    pub fn from_json(v: serde_json::Value) -> (r: Json)
        ensures
            r@ == json_tree(v),
        decreases json_tree(v),
    {
        broadcast use {lemma_array, lemma_members};

        match open_value(v) {
            Node::Null => Json::Null,
            Node::Bool(b) => Json::Bool(b),
            Node::Number(n) => Json::Number(n),
            Node::String(s) => Json::String(s),
            Node::Array(items) => {
                let ghost said = items@;
                let mut out: Vec<Json> = Vec::new();
                for item in it: items
                    invariant
                        json_tree(v) == Tree::Array(
                            said.map_values(|v: serde_json::Value| json_tree(v)),
                        ),
                        it.seq() == said,
                        out@.len() == it.index(),
                        forall|i: int| 0 <= i < out@.len() ==> (#[trigger] out@[i])@ == json_tree(said[i]),
                {
                    assert(json_tree(v)->Array_0[out@.len() as int] == json_tree(item));
                    out.push(Json::from_json(item));
                }
                assert(array_tree(out@)->Array_0 =~= json_tree(v)->Array_0);
                Json::Array(out)
            },
            Node::Object(entries) => {
                let ghost said = entries@;
                let mut out: Vec<(String, Json)> = Vec::new();
                for entry in it: entries
                    invariant
                        json_tree(v) == Tree::Object(node_members(said)),
                        it.seq() == said,
                        out@.len() == it.index(),
                        forall|i: int| #![trigger out@[i]]
                            0 <= i < out@.len() ==> out@[i].0@ == said[i].0@ && out@[i].1@
                                == json_tree(said[i].1),
                {
                    assert(json_tree(v)->Object_0[out@.len() as int].1 == json_tree(entry.1));
                    out.push((entry.0, Json::from_json(entry.1)));
                }
                assert(forall|i: int| 0 <= i < out@.len() ==> node_members(said)[i].0 == (#[trigger] out@[i]).0@);
                let r = JsonObject { entries: out };
                assert(r@ =~= node_members(said));
                Json::Object(r)
            },
        }
    }

    /// The `serde_json` value that says the same.
    pub fn to_json(&self) -> (r: serde_json::Value)
        ensures
            json_tree(r) == self@,
        decreases self@,
    {
        broadcast use {lemma_array, lemma_members};

        let node = match self {
            Json::Null => Node::Null,
            Json::Bool(b) => Node::Bool(*b),
            Json::Number(n) => Node::Number(n.clone()),
            Json::String(s) => Node::String(s.clone()),
            Json::Array(items) => {
                let mut out: Vec<serde_json::Value> = Vec::new();
                for i in 0..items.len()
                    invariant
                        *self == Json::Array(*items),
                        out@.len() == i,
                        forall|j: int|
                            0 <= j < out@.len() ==> json_tree(#[trigger] out@[j]) == items@[j]@,
                {
                    assert(self@->Array_0[i as int] == items@[i as int]@);
                    out.push(items[i].to_json());
                }
                let n = Node::Array(out);
                assert(node_tree(n)->Array_0 =~= self@->Array_0);
                n
            },
            Json::Object(o) => {
                proof {
                    use_type_invariant(o);
                }
                let mut out: Vec<(String, serde_json::Value)> = Vec::new();
                for i in 0..o.entries.len()
                    invariant
                        *self == Json::Object(*o),
                        out@.len() == i,
                        forall|j: int| #![trigger out@[j]]
                            0 <= j < out@.len() ==> out@[j].0@ == o.entries@[j].0@ && json_tree(
                                out@[j].1,
                            ) == o.entries@[j].1@,
                {
                    assert(self@ == Tree::Object(o@));
                    assert(o@[i as int].1 == o.entries@[i as int].1@);
                    assert(self@->Object_0[i as int].1 == o.entries@[i as int].1@);
                    out.push((o.entries[i].0.clone(), o.entries[i].1.to_json()));
                }
                let n = Node::Object(out);
                assert(node_members(out@) =~= o@);
                n
            },
        };
        close_value(node)
    }

    /// Whether the value is `null`.
    pub fn is_null(&self) -> (r: bool)
        ensures
            r == (self@ == Tree::Null),
    {
        match self {
            Json::Null => true,
            _ => false,
        }
    }

    /// The number, where the value is a whole number that is not negative.
    pub fn as_u64(&self) -> (r: Option<u64>)
        ensures
            match r {
                Some(n) => self@ == Tree::Int(n as int),
                None => forall|n: int| 0 <= n <= u64::MAX ==> self@ != Tree::Int(n),
            },
    {
        match self {
            Json::Number(JsonNumber::PosInt(n)) => Some(*n),
            Json::Number(JsonNumber::NegInt(n)) => if *n >= 0 {
                Some(*n as u64)
            } else {
                None
            },
            _ => None,
        }
    }

    /// The number, where the value is a whole number that fits.
    pub fn as_i64(&self) -> (r: Option<i64>)
        ensures
            match r {
                Some(n) => self@ == Tree::Int(n as int),
                None => forall|n: int| i64::MIN <= n <= i64::MAX ==> self@ != Tree::Int(n),
            },
    {
        match self {
            Json::Number(JsonNumber::PosInt(n)) => if *n <= i64::MAX as u64 {
                Some(*n as i64)
            } else {
                None
            },
            Json::Number(JsonNumber::NegInt(n)) => Some(*n),
            _ => None,
        }
    }

    /// Reads a JSON text.
    pub fn parse(text: &[u8]) -> (r: Result<Json, JsonError>)
        ensures
            match json_parse(text@) {
                Ok(t) => r matches Ok(v) && v@ == t,
                Err(e) => r == Err::<Json, JsonError>(e),
            },
    {
        match parse_value(text) {
            Ok(v) => Ok(Json::from_json(v)),
            Err(e) => Err(e),
        }
    }

    /// Reads the value that a text begins with. With it comes what is wrong with what follows, if
    /// something is.
    pub fn read(text: &[u8]) -> (r: Result<(Json, Option<JsonError>), JsonError>)
        ensures
            match reading(text@) {
                Ok((t, rest)) => r matches Ok((v, x)) && v@ == t && x == rest,
                Err(e) => r == Err::<(Json, Option<JsonError>), JsonError>(e),
            },
    {
        let rest = match parse_value(text) {
            Ok(v) => return Ok((Json::from_json(v), None)),
            Err(e) => e,
        };
        match parse_first(text) {
            Ok(v) => Ok((Json::from_json(v), Some(rest))),
            Err(e) => Err(e),
        }
    }

    /// The value as it is formatted with `{:?}` in `serde_json`.
    pub fn to_debug(&self) -> (r: String)
        ensures
            r@ == json_debug(self@),
    {
        debug_value(&self.to_json())
    }

    /// The JSON text of the value.
    pub fn to_text(&self) -> (r: String)
        ensures
            r@ == json_text(self@),
            readable(self@, 127) ==> reads_as(encode_utf8(r@), self@),
    {
        write_value(&self.to_json())
    }

    /// The JSON text of the value, as bytes.
    pub fn to_bytes(&self) -> (r: Vec<u8>)
        ensures
            r@ == encode_utf8(json_text(self@)),
            readable(self@, 127) ==> reads_as(r@, self@),
    {
        write_bytes(&self.to_json())
    }
}

impl Clone for Fraction {
    fn clone(&self) -> (r: Self)
        ensures
            r == *self,
    {
        Fraction(self.0.clone())
    }
}

impl Clone for JsonNumber {
    fn clone(&self) -> (r: Self)
        ensures
            r == *self,
    {
        match self {
            JsonNumber::PosInt(u) => JsonNumber::PosInt(*u),
            JsonNumber::NegInt(i) => JsonNumber::NegInt(*i),
            JsonNumber::Float(f) => JsonNumber::Float(f.clone()),
        }
    }
}

impl Clone for JsonObject {
    fn clone(&self) -> (r: Self)
        ensures
            r@ == self@,
        decreases self@,
    {
        broadcast use lemma_members;

        proof {
            use_type_invariant(self);
        }
        let mut entries: Vec<(String, Json)> = Vec::new();
        for i in 0..self.entries.len()
            invariant
                entries@.len() == i,
                forall|j: int| #![trigger entries@[j]]
                    0 <= j < i ==> entries@[j].0@ == self.entries@[j].0@ && entries@[j].1@
                        == self.entries@[j].1@,
        {
            assert(self@[i as int].1 == self.entries@[i as int].1@);
            entries.push((self.entries[i].0.clone(), self.entries[i].1.clone()));
        }
        let r = JsonObject { entries };
        assert(r@ =~= self@);
        r
    }
}

impl Clone for Json {
    fn clone(&self) -> (r: Self)
        ensures
            r@ == self@,
        decreases self@,
    {
        broadcast use lemma_array;

        match self {
            Json::Null => Json::Null,
            Json::Bool(b) => Json::Bool(*b),
            Json::Number(n) => Json::Number(n.clone()),
            Json::String(s) => Json::String(s.clone()),
            Json::Array(items) => {
                let mut out: Vec<Json> = Vec::new();
                for i in 0..items.len()
                    invariant
                        *self == Json::Array(*items),
                        out@.len() == i,
                        forall|j: int| 0 <= j < i ==> (#[trigger] out@[j])@ == items@[j]@,
                {
                    assert(self@->Array_0[i as int] == items@[i as int]@);
                    out.push(items[i].clone());
                }
                assert(array_tree(out@)->Array_0 =~= self@->Array_0);
                Json::Array(out)
            },
            Json::Object(o) => {
                assert(self@->Object_0 == o@);
                Json::Object(o.clone())
            },
        }
    }
}

} // verus!
