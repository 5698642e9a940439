//! How the parameters of a request are bound to the arguments of a method.

use crate::derive::{ArgsField, ArgsFieldView, ArgsStruct, ArgsStructView};
use crate::error::json_view;
use crate::json::{json_text, lemma_array, Json, JsonNumber, JsonObject, Tree};
use crate::text::{bare, decimal, same, signed_decimal, to_decimal, to_signed_decimal, unraw};
use vstd::prelude::*;

verus! {

/// How a text is written by the `Debug` of `str`: in quotes, with escapes.
pub uninterp spec fn quoted(s: Seq<char>) -> Seq<char>;

/// Formats a text with `{:?}`, the `Debug` of `str`, whose result depends on the text alone.
#[verifier::external_body]
fn quote(s: &str) -> (r: String)
    ensures
        r@ == quoted(s@),
{
    format!("{:?}", s)
}

/// The name of a field on the wire.
pub open spec fn field_wire(f: ArgsFieldView) -> Seq<char> {
    match f.rename {
        Some(name) => name,
        None => bare(f.ident),
    }
}

/// Whether a field is accepted under `name`.
pub open spec fn accepts(f: ArgsFieldView, name: Seq<char>) -> bool {
    name == field_wire(f) || f.alias == Some(name)
}

/// The field that is given under `name`: the first that is accepted under it.
pub open spec fn field_for(fields: Seq<ArgsFieldView>, name: Seq<char>) -> Option<int>
    decreases fields.len(),
{
    if fields.len() == 0 {
        None
    } else {
        match field_for(fields.drop_last(), name) {
            Some(i) => Some(i),
            None => if accepts(fields.last(), name) {
                Some(fields.len() - 1)
            } else {
                None
            },
        }
    }
}

/// The value that the members `m` give to the field `i`, if they give one: the last.
pub open spec fn given(
    fields: Seq<ArgsFieldView>,
    m: Seq<(Seq<char>, Tree)>,
    i: int,
) -> Option<Tree>
    decreases m.len(),
{
    if m.len() == 0 {
        None
    } else if field_for(fields, m.last().0) == Some(i) {
        Some(m.last().1)
    } else {
        given(fields, m.drop_last(), i)
    }
}

/// The first field that the members `m` give twice, if there is one.
pub open spec fn given_twice(
    fields: Seq<ArgsFieldView>,
    m: Seq<(Seq<char>, Tree)>,
) -> Option<int>
    decreases m.len(),
{
    if m.len() == 0 {
        None
    } else {
        match given_twice(fields, m.drop_last()) {
            Some(i) => Some(i),
            None => match field_for(fields, m.last().0) {
                Some(i) => if given(fields, m.drop_last(), i) is Some {
                    Some(i)
                } else {
                    None
                },
                None => None,
            },
        }
    }
}

/// The members `m` up to the first that gives a field again.
pub open spec fn before_repeat(
    fields: Seq<ArgsFieldView>,
    m: Seq<(Seq<char>, Tree)>,
) -> Seq<(Seq<char>, Tree)>
    decreases m.len(),
{
    if m.len() > 0 && given_twice(fields, m) is Some {
        before_repeat(fields, m.drop_last())
    } else {
        m
    }
}

/// The fields that the members `m` give, in the order of the members.
pub open spec fn given_order(fields: Seq<ArgsFieldView>, m: Seq<(Seq<char>, Tree)>) -> Seq<int>
    decreases m.len(),
{
    if m.len() == 0 {
        Seq::empty()
    } else {
        let before = given_order(fields, m.drop_last());
        match field_for(fields, m.last().0) {
            Some(i) => before.push(i),
            None => before,
        }
    }
}

/// The first of the fields from `i` on that must be given and is not, if there is one.
pub open spec fn left_out(
    fields: Seq<ArgsFieldView>,
    m: Seq<(Seq<char>, Tree)>,
    i: int,
) -> Option<int>
    decreases fields.len() - i,
{
    if i < 0 || i >= fields.len() {
        None
    } else if !fields[i].optional && given(fields, m, i) is None {
        Some(i)
    } else {
        left_out(fields, m, i + 1)
    }
}

/// What a value is that was not expected.
pub open spec fn unexpected(t: Tree) -> Seq<char> {
    match t {
        Tree::Null => "null"@,
        Tree::Bool(b) => if b {
            "boolean `true`"@
        } else {
            "boolean `false`"@
        },
        Tree::Int(n) => "integer `"@ + signed_decimal(n) + "`"@,
        Tree::Float(_) => "floating point `"@ + json_text(t) + "`"@,
        Tree::String(s) => "string "@ + quoted(s),
        Tree::Array(_) => "sequence"@,
        Tree::Object(_) => "map"@,
    }
}

/// How many elements a list of arguments must have.
pub open spec fn elements(n: nat) -> Seq<char> {
    if n == 1 {
        " with 1 element"@
    } else {
        " with "@ + decimal(n) + " elements"@
    }
}

/// What is wrong with the members `m` as arguments, whatever their values are.
pub open spec fn member_fault(
    fields: Seq<ArgsFieldView>,
    m: Seq<(Seq<char>, Tree)>,
) -> Option<Seq<char>> {
    match given_twice(fields, m) {
        Some(i) => Some("duplicate field `"@ + field_wire(fields[i]) + "`"@),
        None => match left_out(fields, m, 0) {
            Some(i) => Some("missing field `"@ + field_wire(fields[i]) + "`"@),
            None => None,
        },
    }
}

/// What is wrong with a list of `given` items as the arguments of `s`, whatever the items are.
pub open spec fn length_fault(s: ArgsStructView, given: nat) -> Option<Seq<char>> {
    let n = s.fields.len();
    if given == n {
        None
    } else if given < n {
        Some("invalid length "@ + decimal(given) + ", expected struct "@ + s.ident + elements(n))
    } else {
        Some("invalid length "@ + decimal(given) + ", expected fewer elements in array"@)
    }
}

/// What the parameters of a request give to the arguments of a method.
#[verifier::ext_equal]
pub struct BoundView {
    /// The values of the arguments, in the order of the arguments.
    pub args: Seq<Option<Tree>>,
    /// The arguments that are given, in the order in which they are read.
    pub order: Seq<int>,
    /// What is found wrong once these are read.
    pub fault: Option<Seq<char>>,
}

/// What the parameters `t` give to the fields of `s`.
///
/// The parameters are an object, whose members give the fields under their names, where other
/// members are ignored; or a list with an item for each field. A field that can be left out is
/// `None` where it is. Members and items are read in their order, up to a member that gives a field
/// again or an item for which there is no field.
pub open spec fn bound(s: ArgsStructView, t: Tree) -> BoundView {
    let fields = s.fields;
    match t {
        Tree::Object(m) => BoundView {
            args: Seq::new(fields.len(), |i: int| given(fields, before_repeat(fields, m), i)),
            order: given_order(fields, before_repeat(fields, m)),
            fault: member_fault(fields, m),
        },
        Tree::Array(v) => BoundView {
            args: Seq::new(
                fields.len(),
                |i: int|
                    if i < v.len() {
                        Some(v[i])
                    } else {
                        None
                    },
            ),
            order: Seq::new(
                if v.len() < fields.len() {
                    v.len()
                } else {
                    fields.len()
                },
                |i: int| i,
            ),
            fault: length_fault(s, v.len()),
        },
        _ => BoundView {
            args: Seq::new(fields.len(), |i: int| None),
            order: Seq::empty(),
            fault: Some("invalid type: "@ + unexpected(t) + ", expected struct "@ + s.ident),
        },
    }
}

/// Whether a field is given under another name than its name on the wire.
pub open spec fn old_name(fields: Seq<ArgsFieldView>, name: Seq<char>) -> bool {
    field_for(fields, name) matches Some(i) && name != field_wire(fields[i])
}

/// Whether the parameters `t` give a field under another name than its name on the wire.
pub open spec fn uses_old_names(s: ArgsStructView, t: Tree) -> bool {
    t matches Tree::Object(m) && exists|k: int|
        0 <= k < m.len() && old_name(s.fields, (#[trigger] m[k]).0)
}

/// The first field that is accepted under a name is one of the fields, and accepted under it; and
/// no field is, where there is no first.
pub proof fn lemma_field_for(fields: Seq<ArgsFieldView>, name: Seq<char>)
    ensures
        match field_for(fields, name) {
            Some(i) => 0 <= i < fields.len() && accepts(fields[i], name) && forall|j: int|
                0 <= j < i ==> !accepts(#[trigger] fields[j], name),
            None => forall|j: int| 0 <= j < fields.len() ==> !accepts(#[trigger] fields[j], name),
        },
    decreases fields.len(),
{
    if fields.len() > 0 {
        let rest = fields.drop_last();
        lemma_field_for(rest, name);
        assert(forall|j: int| 0 <= j < rest.len() ==> #[trigger] fields[j] == rest[j]);
    }
}

/// What optional values say.
pub open spec fn slots_view(slots: Seq<Option<Json>>) -> Seq<Option<Tree>> {
    slots.map_values(|v: Option<Json>| json_view(v))
}

/// What the parameters of a request give to the arguments of a method.
pub struct Bound {
    /// The values of the arguments, in the order of the arguments. One that is not given is `None`.
    pub args: Vec<Option<Json>>,
    /// The arguments that are given, in the order in which they are read.
    pub order: Vec<usize>,
    /// What is found wrong once these are read.
    pub fault: Option<String>,
}

/// Indices as integers.
pub open spec fn indices_view(order: Seq<usize>) -> Seq<int> {
    order.map_values(|i: usize| i as int)
}

/// What an optional text says.
pub open spec fn fault_view(fault: Option<String>) -> Option<Seq<char>> {
    match fault {
        Some(s) => Some(s@),
        None => None,
    }
}

impl View for Bound {
    type V = BoundView;

    open spec fn view(&self) -> BoundView {
        BoundView {
            args: slots_view(self.args@),
            order: indices_view(self.order@),
            fault: fault_view(self.fault),
        }
    }
}

impl ArgsField {
    /// The name of the field on the wire.
    pub fn wire(&self) -> (r: &str)
        ensures
            r@ == field_wire(self@),
    {
        match &self.rename {
            Some(name) => name.as_str(),
            None => unraw(self.ident.as_str()),
        }
    }

    /// Whether the field is accepted under `name`.
    fn accepts(&self, name: &str) -> (r: bool)
        ensures
            r == accepts(self@, name@),
    {
        if same(name, self.wire()) {
            return true;
        }
        match &self.alias {
            Some(alias) => same(name, alias.as_str()),
            None => false,
        }
    }
}

/// What a value is that was not expected.
fn describe_unexpected(v: &Json) -> (r: String)
    ensures
        r@ == unexpected(v@),
{
    match v {
        Json::Null => "null".to_owned(),
        Json::Bool(b) => if *b {
            "boolean `true`".to_owned()
        } else {
            "boolean `false`".to_owned()
        },
        Json::Number(n) => match n {
            JsonNumber::PosInt(k) => {
                let mut r = "integer `".to_owned();
                r.append(to_decimal(*k).as_str());
                r.append("`");
                r
            },
            JsonNumber::NegInt(k) => {
                let mut r = "integer `".to_owned();
                r.append(to_signed_decimal(*k).as_str());
                r.append("`");
                r
            },
            JsonNumber::Float(_) => {
                let mut r = "floating point `".to_owned();
                r.append(v.to_text().as_str());
                r.append("`");
                r
            },
        },
        Json::String(s) => {
            let mut r = "string ".to_owned();
            r.append(quote(s.as_str()).as_str());
            r
        },
        Json::Array(_) => "sequence".to_owned(),
        Json::Object(_) => "map".to_owned(),
    }
}

/// The error that `unexpected` was given where the struct `ident` was expected.
pub fn invalid_type(unexpected: &str, ident: &str) -> (r: String)
    ensures
        r@ == "invalid type: "@ + unexpected@ + ", expected struct "@ + ident@,
{
    let mut r = "invalid type: ".to_owned();
    r.append(unexpected);
    r.append(", expected struct ");
    r.append(ident);
    r
}

/// `middle` after `head`, which ends in a backquote that is closed.
fn backquoted(head: &str, middle: &str) -> (r: String)
    ensures
        r@ == head@ + middle@ + "`"@,
{
    let mut r = head.to_owned();
    r.append(middle);
    r.append("`");
    r
}

impl ArgsStruct {
    /// The field that is given under `name`.
    fn field_for(&self, name: &str) -> (r: Option<usize>)
        ensures
            match field_for(self@.fields, name@) {
                Some(i) => r matches Some(k) && k == i && k < self.fields@.len(),
                None => r is None,
            },
    {
        proof {
            lemma_field_for(self@.fields, name@);
        }
        let mut i: usize = 0;
        while i < self.fields.len()
            invariant
                i <= self.fields@.len(),
                self@.fields.len() == self.fields@.len(),
                forall|j: int| 0 <= j < i ==> !accepts(#[trigger] self@.fields[j], name@),
            decreases self.fields@.len() - i,
        {
            assert(self@.fields[i as int] == self.fields@[i as int]@);
            if self.fields[i].accepts(name) {
                proof {
                    lemma_field_for(self@.fields, name@);
                }
                return Some(i);
            }
            i = i + 1;
        }
        None
    }

    /// The arguments, of which none is given yet.
    fn none_given(&self) -> (r: Vec<Option<Json>>)
        ensures
            slots_view(r@) == Seq::new(self@.fields.len(), |i: int| None::<Tree>),
    {
        let mut slots: Vec<Option<Json>> = Vec::new();
        for i in 0..self.fields.len()
            invariant
                slots@.len() == i,
                forall|j: int| 0 <= j < i ==> #[trigger] slots@[j] is None,
        {
            slots.push(None);
        }
        assert(slots_view(slots@) =~= Seq::new(self@.fields.len(), |i: int| None::<Tree>));
        slots
    }

    /// Binds the members of an object.
    fn bind_members(&self, o: &JsonObject) -> (r: Bound)
        ensures
            r@ == bound(self@, Tree::Object(o@)),
    {
        let ghost fields = self@.fields;
        let ghost m = o@;
        let mut args = self.none_given();
        let mut order: Vec<usize> = Vec::new();
        let count: usize = o.len();
        proof {
            let none = slots_view(args@);
            assert(none.len() == fields.len());
            assert forall|i: int| 0 <= i < fields.len() implies json_view(#[trigger] args@[i]) == given(
                fields,
                m.take(0),
                i,
            ) by {
                assert(none[i] == json_view(args@[i]));
            }
            assert(indices_view(order@) =~= given_order(fields, m.take(0)));
        }
        for k in 0..count
            invariant
                count == m.len(),
                m == o@,
                fields == self@.fields,
                fields.len() == self.fields@.len() == args@.len(),
                given_twice(fields, m.take(k as int)) is None,
                forall|i: int|
                    0 <= i < fields.len() ==> json_view(#[trigger] args@[i]) == given(
                        fields,
                        m.take(k as int),
                        i,
                    ),
                indices_view(order@) == given_order(fields, m.take(k as int)),
        {
            proof {
                assert(m.take(k + 1).drop_last() =~= m.take(k as int));
                assert(m.take(k + 1).last() == m[k as int]);
            }
            let name = o.name_at(k);
            if let Some(i) = self.field_for(name) {
                if args[i].is_some() {
                    proof {
                        assert(json_view(args@[i as int]) is Some);
                        lemma_twice_stays(fields, m, k + 1);
                        lemma_before_repeat(fields, m, k as int);
                        assert(fields[i as int] == self.fields@[i as int]@);
                        assert(slots_view(args@) =~= Seq::new(
                            fields.len(),
                            |i: int| given(fields, m.take(k as int), i),
                        ));
                    }
                    let fault = Some(backquoted("duplicate field `", self.fields[i].wire()));
                    return Bound { args, order, fault };
                }
                args.set(i, Some(o.value_at(k).clone()));
                let ghost before = order@;
                order.push(i);
                assert(indices_view(order@) =~= indices_view(before).push(i as int));
            }
        }
        assert(m.take(m.len() as int) =~= m);
        assert(slots_view(args@) =~= Seq::new(fields.len(), |i: int| given(fields, m, i)));
        let mut i: usize = 0;
        while i < self.fields.len()
            invariant
                i <= self.fields@.len(),
                fields == self@.fields,
                fields.len() == self.fields@.len() == args@.len(),
                forall|i: int|
                    0 <= i < fields.len() ==> json_view(#[trigger] args@[i]) == given(fields, m, i),
                slots_view(args@) == Seq::new(fields.len(), |i: int| given(fields, m, i)),
                indices_view(order@) == given_order(fields, m),
                left_out(fields, m, 0) == left_out(fields, m, i as int),
                given_twice(fields, m) is None,
                m == o@,
            decreases self.fields@.len() - i,
        {
            assert(fields[i as int] == self.fields@[i as int]@);
            assert(json_view(args@[i as int]) == given(fields, m, i as int));
            if !self.fields[i].optional && args[i].is_none() {
                let fault = Some(backquoted("missing field `", self.fields[i].wire()));
                return Bound { args, order, fault };
            }
            i = i + 1;
        }
        Bound { args, order, fault: None }
    }

    /// What is wrong with a list of `given` items as the arguments.
    fn length_fault(&self, given: usize) -> (r: Option<String>)
        ensures
            fault_view(r) == length_fault(self@, given as nat),
    {
        if given == self.fields.len() {
            return None;
        }
        let mut r = "invalid length ".to_owned();
        r.append(to_decimal(given as u64).as_str());
        if given > self.fields.len() {
            r.append(", expected fewer elements in array");
            return Some(r);
        }
        r.append(", expected struct ");
        r.append(self.ident.as_str());
        if self.fields.len() == 1 {
            r.append(" with 1 element");
        } else {
            let mut rest = " with ".to_owned();
            rest.append(to_decimal(self.fields.len() as u64).as_str());
            rest.append(" elements");
            r.append(rest.as_str());
        }
        Some(r)
    }

    /// Binds the items of a list.
    fn bind_items(&self, items: &Vec<Json>) -> (r: Bound)
        ensures
            r@ == bound(self@, Tree::Array(items@.map_values(|v: Json| v@))),
    {
        let ghost v = items@.map_values(|v: Json| v@);
        let mut args: Vec<Option<Json>> = Vec::new();
        let mut order: Vec<usize> = Vec::new();
        for i in 0..self.fields.len()
            invariant
                v == items@.map_values(|v: Json| v@),
                args@.len() == i,
                forall|j: int|
                    0 <= j < i ==> json_view(#[trigger] args@[j]) == (if j < v.len() {
                        Some(v[j])
                    } else {
                        None
                    }),
                order@.len() == if i < v.len() {
                    i as int
                } else {
                    v.len() as int
                },
                forall|j: int| 0 <= j < order@.len() ==> #[trigger] order@[j] == j,
        {
            if i < items.len() {
                args.push(Some(items[i].clone()));
                order.push(i);
            } else {
                args.push(None);
            }
        }
        let fault = self.length_fault(items.len());
        let r = Bound { args, order, fault };
        assert(r@ =~= bound(self@, Tree::Array(v)));
        r
    }

    /// Binds the parameters of a request to the arguments of a method. Whether a value fits the
    /// type of its argument is not decided here: the values are to be read in the `order` given,
    /// and the first that does not fit precedes the `fault`.
    pub fn bind(&self, params: &Json) -> (r: Bound)
        ensures
            r@ == bound(self@, params@),
    {
        broadcast use lemma_array;

        match params {
            Json::Object(o) => self.bind_members(o),
            Json::Array(items) => self.bind_items(items),
            _ => {
                let fault = invalid_type(
                    describe_unexpected(params).as_str(),
                    self.ident.as_str(),
                );
                let r = Bound { args: self.none_given(), order: Vec::new(), fault: Some(fault) };
                assert(r@ =~= bound(self@, params@));
                r
            },
        }
    }

    /// Whether the parameters give an argument under another name than its name on the wire.
    pub fn uses_old_names(&self, params: &Json) -> (r: bool)
        ensures
            r == uses_old_names(self@, params@),
    {
        let o = match params {
            Json::Object(o) => o,
            _ => return false,
        };
        let count: usize = o.len();
        for k in 0..count
            invariant
                count == o@.len(),
                params@ == Tree::Object(o@),
                forall|j: int| 0 <= j < k ==> !old_name(self@.fields, (#[trigger] o@[j]).0),
        {
            let name = o.name_at(k);
            if let Some(i) = self.field_for(name) {
                assert(self@.fields[i as int] == self.fields@[i as int]@);
                if !same(name, self.fields[i].wire()) {
                    assert(old_name(self@.fields, params@->Object_0[k as int].0));
                    return true;
                }
            }
        }
        false
    }
}

/// It makes no difference under which of its names an argument is given: members with the same
/// values for the same fields are bound alike.
pub proof fn lemma_spelling_is_free(
    s: ArgsStructView,
    m: Seq<(Seq<char>, Tree)>,
    n: Seq<(Seq<char>, Tree)>,
)
    requires
        m.len() == n.len(),
        forall|k: int|
            0 <= k < m.len() ==> field_for(s.fields, (#[trigger] m[k]).0) == field_for(
                s.fields,
                n[k].0,
            ) && m[k].1 == n[k].1,
    ensures
        bound(s, Tree::Object(m)) == bound(s, Tree::Object(n)),
{
    let fields = s.fields;
    assert forall|i: int| given(fields, m, i) == given(fields, n, i) by {
        lemma_given_alike(fields, m, n, i);
    }
    lemma_twice_alike(fields, m, n);
    lemma_left_out_alike(fields, m, n, 0);
    lemma_before_repeat_alike(fields, m, n);
    let p = before_repeat(fields, m);
    let q = before_repeat(fields, n);
    lemma_order_alike(fields, p, q);
    assert forall|i: int| given(fields, p, i) == given(fields, q, i) by {
        lemma_given_alike(fields, p, q, i);
    }
    assert(bound(s, Tree::Object(m)) =~= bound(s, Tree::Object(n)));
}

/// An argument that is given under two of its names is an error.
pub proof fn lemma_both_spellings_are_refused(
    s: ArgsStructView,
    m: Seq<(Seq<char>, Tree)>,
    j: int,
    k: int,
)
    requires
        0 <= j < k < m.len(),
        field_for(s.fields, m[j].0) is Some,
        field_for(s.fields, m[j].0) == field_for(s.fields, m[k].0),
    ensures
        bound(s, Tree::Object(m)).fault is Some,
{
    let fields = s.fields;
    let i = field_for(fields, m[j].0)->0;
    let before = m.take(k);
    lemma_given_somewhere(fields, before, j, i);
    let upto = m.take(k + 1);
    assert(upto.drop_last() =~= before);
    assert(upto.last() == m[k]);
    assert(given_twice(fields, upto) is Some);
    lemma_twice_stays(fields, m, k + 1);
}

/// A struct whose fields are not renamed accepts each field under its own name alone.
pub proof fn lemma_no_alias_without_rename(f: ArgsFieldView, name: Seq<char>)
    requires
        f.rename is None,
        f.alias is None,
    ensures
        accepts(f, name) == (name == bare(f.ident)),
{
}

/// What is read are the arguments that are given, each once.
pub proof fn lemma_given_is_read_once(s: ArgsStructView, t: Tree)
    ensures
        bound(s, t).args.len() == s.fields.len(),
        bound(s, t).order.no_duplicates(),
        forall|i: int| #[trigger]
            bound(s, t).order.contains(i) <==> 0 <= i < s.fields.len() && bound(s, t).args[i] is Some,
{
    let b = bound(s, t);
    match t {
        Tree::Object(m) => {
            let p = before_repeat(s.fields, m);
            lemma_none_twice_before_repeat(s.fields, m);
            lemma_order_once(s.fields, p);
            assert forall|i: int| #[trigger] b.order.contains(i) <==> 0 <= i < s.fields.len()
                && b.args[i] is Some by {
                lemma_order_is_given(s.fields, p, i);
            }
        },
        Tree::Array(v) => {
            assert forall|i: int| #[trigger] b.order.contains(i) <==> 0 <= i < s.fields.len()
                && b.args[i] is Some by {
                if 0 <= i < s.fields.len() && i < v.len() {
                    assert(b.order[i] == i);
                }
            }
        },
        _ => {},
    }
}

/// Where no field is given twice, each is in the order once.
proof fn lemma_order_once(fields: Seq<ArgsFieldView>, m: Seq<(Seq<char>, Tree)>)
    requires
        given_twice(fields, m) is None,
    ensures
        given_order(fields, m).no_duplicates(),
    decreases m.len(),
{
    if m.len() > 0 {
        let before = m.drop_last();
        lemma_order_once(fields, before);
        if field_for(fields, m.last().0) is Some {
            lemma_order_is_given(fields, before, field_for(fields, m.last().0)->0);
        }
    }
}

/// The fields in the order are those that are given.
proof fn lemma_order_is_given(fields: Seq<ArgsFieldView>, m: Seq<(Seq<char>, Tree)>, i: int)
    ensures
        given_order(fields, m).contains(i) <==> 0 <= i < fields.len() && given(fields, m, i) is Some,
    decreases m.len(),
{
    if m.len() > 0 {
        let before = given_order(fields, m.drop_last());
        lemma_order_is_given(fields, m.drop_last(), i);
        lemma_field_for(fields, m.last().0);
        match field_for(fields, m.last().0) {
            Some(j) => {
                let all = before.push(j);
                if i == j {
                    assert(all[before.len() as int] == i);
                }
                if before.contains(i) {
                    let k = choose|k: int| 0 <= k < before.len() && before[k] == i;
                    assert(all[k] == i);
                }
            },
            None => {},
        }
    }
}

/// No field is given twice before one is given again.
proof fn lemma_none_twice_before_repeat(fields: Seq<ArgsFieldView>, m: Seq<(Seq<char>, Tree)>)
    ensures
        given_twice(fields, before_repeat(fields, m)) is None,
    decreases m.len(),
{
    if m.len() > 0 && given_twice(fields, m) is Some {
        lemma_none_twice_before_repeat(fields, m.drop_last());
    }
}

/// The member `k` is the first that gives a field again, if the members up to it do not and those
/// with it do.
proof fn lemma_before_repeat(fields: Seq<ArgsFieldView>, m: Seq<(Seq<char>, Tree)>, k: int)
    requires
        0 <= k < m.len(),
        given_twice(fields, m.take(k)) is None,
        given_twice(fields, m.take(k + 1)) is Some,
    ensures
        before_repeat(fields, m) == m.take(k),
    decreases m.len(),
{
    lemma_twice_stays(fields, m, k + 1);
    let before = m.drop_last();
    if k == before.len() {
        assert(m.take(k) =~= before);
        assert(before_repeat(fields, before) == before);
    } else {
        assert(before.take(k) =~= m.take(k));
        assert(before.take(k + 1) =~= m.take(k + 1));
        lemma_before_repeat(fields, before, k);
    }
}

/// Members with the same values for the same fields give one again at the same place.
proof fn lemma_before_repeat_alike(
    fields: Seq<ArgsFieldView>,
    m: Seq<(Seq<char>, Tree)>,
    n: Seq<(Seq<char>, Tree)>,
)
    requires
        m.len() == n.len(),
        forall|k: int|
            0 <= k < m.len() ==> field_for(fields, (#[trigger] m[k]).0) == field_for(fields, n[k].0)
                && m[k].1 == n[k].1,
    ensures
        before_repeat(fields, m).len() == before_repeat(fields, n).len(),
        forall|k: int|
            0 <= k < before_repeat(fields, m).len() ==> field_for(
                fields,
                (#[trigger] before_repeat(fields, m)[k]).0,
            ) == field_for(fields, before_repeat(fields, n)[k].0) && before_repeat(fields, m)[k].1
                == before_repeat(fields, n)[k].1,
    decreases m.len(),
{
    lemma_twice_alike(fields, m, n);
    if m.len() > 0 && given_twice(fields, m) is Some {
        assert forall|k: int| 0 <= k < m.drop_last().len() implies field_for(
            fields,
            (#[trigger] m.drop_last()[k]).0,
        ) == field_for(fields, n.drop_last()[k].0) && m.drop_last()[k].1 == n.drop_last()[k].1 by {
            assert(m.drop_last()[k] == m[k]);
        }
        lemma_before_repeat_alike(fields, m.drop_last(), n.drop_last());
    }
}

/// Members that give the same fields give them in the same order.
proof fn lemma_order_alike(
    fields: Seq<ArgsFieldView>,
    m: Seq<(Seq<char>, Tree)>,
    n: Seq<(Seq<char>, Tree)>,
)
    requires
        m.len() == n.len(),
        forall|k: int|
            0 <= k < m.len() ==> field_for(fields, (#[trigger] m[k]).0) == field_for(fields, n[k].0),
    ensures
        given_order(fields, m) == given_order(fields, n),
    decreases m.len(),
{
    if m.len() > 0 {
        assert(m.last() == m[m.len() - 1]);
        assert forall|k: int| 0 <= k < m.drop_last().len() implies field_for(
            fields,
            (#[trigger] m.drop_last()[k]).0,
        ) == field_for(fields, n.drop_last()[k].0) by {
            assert(m.drop_last()[k] == m[k]);
        }
        lemma_order_alike(fields, m.drop_last(), n.drop_last());
    }
}

/// The members that give each field of `s` its value in `values`, under these names.
pub open spec fn members(names: Seq<Seq<char>>, values: Seq<Tree>) -> Seq<(Seq<char>, Tree)> {
    Seq::new(values.len(), |k: int| (names[k], values[k]))
}

/// Where each field is given, in the order of the fields and under a name by which it is found, the
/// arguments are the values that are given, and nothing is wrong with them.
pub proof fn lemma_all_given(s: ArgsStructView, names: Seq<Seq<char>>, values: Seq<Tree>)
    requires
        names.len() == s.fields.len(),
        values.len() == s.fields.len(),
        forall|k: int| 0 <= k < names.len() ==> field_for(s.fields, #[trigger] names[k]) == Some(k),
    ensures
        bound(s, Tree::Object(members(names, values))) == (BoundView {
            args: values.map_values(|t: Tree| Some(t)),
            order: Seq::new(values.len(), |k: int| k),
            fault: None,
        }),
{
    let m = members(names, values);
    let fields = s.fields;
    lemma_given_one_by_one(fields, names, values, values.len() as int);
    assert(m.take(m.len() as int) =~= m);
    assert(before_repeat(fields, m) == m);
    assert forall|i: int| 0 <= i < fields.len() implies given(fields, m, i) == Some(values[i]) by {}
    lemma_none_left_out(fields, m, 0);
    assert(bound(s, Tree::Object(m)) =~= (BoundView {
        args: values.map_values(|t: Tree| Some(t)),
        order: Seq::new(values.len(), |k: int| k),
        fault: None,
    }));
}

/// Where each field is given in the order of the fields, the first `k` members give the first `k`
/// fields.
proof fn lemma_given_one_by_one(
    fields: Seq<ArgsFieldView>,
    names: Seq<Seq<char>>,
    values: Seq<Tree>,
    k: int,
)
    requires
        names.len() == values.len(),
        0 <= k <= values.len(),
        forall|k: int| 0 <= k < names.len() ==> field_for(fields, #[trigger] names[k]) == Some(k),
    ensures
        given_twice(fields, members(names, values).take(k)) is None,
        given_order(fields, members(names, values).take(k)) == Seq::new(k as nat, |i: int| i),
        forall|i: int| #[trigger]
            given(fields, members(names, values).take(k), i) == if 0 <= i < k {
                Some(values[i])
            } else {
                None
            },
    decreases k,
{
    let m = members(names, values);
    if k == 0 {
        assert(given_order(fields, m.take(k)) =~= Seq::new(k as nat, |i: int| i));
    } else {
        lemma_given_one_by_one(fields, names, values, k - 1);
        assert(m.take(k).drop_last() =~= m.take(k - 1));
        assert(m.take(k).last() == (names[k - 1], values[k - 1]));
        assert(field_for(fields, names[k - 1]) == Some(k - 1));
        assert forall|i: int| #[trigger] given(fields, m.take(k), i) == if 0 <= i < k {
            Some(values[i])
        } else {
            None
        } by {
            assert(given(fields, m.take(k - 1), i) == if 0 <= i < k - 1 {
                Some(values[i])
            } else {
                None
            });
        }
        assert(given_order(fields, m.take(k)) =~= Seq::new(k as nat, |i: int| i));
    }
}

/// Where all fields are given, none is left out.
proof fn lemma_none_left_out(fields: Seq<ArgsFieldView>, m: Seq<(Seq<char>, Tree)>, i: int)
    requires
        forall|j: int| 0 <= j < fields.len() ==> #[trigger] given(fields, m, j) is Some,
    ensures
        left_out(fields, m, i) is None,
    decreases fields.len() - i,
{
    if 0 <= i < fields.len() {
        lemma_none_left_out(fields, m, i + 1);
    }
}

/// What one of the members gives is given.
proof fn lemma_given_somewhere(
    fields: Seq<ArgsFieldView>,
    m: Seq<(Seq<char>, Tree)>,
    j: int,
    i: int,
)
    requires
        0 <= j < m.len(),
        field_for(fields, m[j].0) == Some(i),
    ensures
        given(fields, m, i) is Some,
    decreases m.len(),
{
    if j < m.len() - 1 {
        assert(m.drop_last()[j] == m[j]);
        lemma_given_somewhere(fields, m.drop_last(), j, i);
    }
}

/// Members with the same values for the same fields give the same.
proof fn lemma_given_alike(
    fields: Seq<ArgsFieldView>,
    m: Seq<(Seq<char>, Tree)>,
    n: Seq<(Seq<char>, Tree)>,
    i: int,
)
    requires
        m.len() == n.len(),
        forall|k: int|
            0 <= k < m.len() ==> field_for(fields, (#[trigger] m[k]).0) == field_for(fields, n[k].0)
                && m[k].1 == n[k].1,
    ensures
        given(fields, m, i) == given(fields, n, i),
    decreases m.len(),
{
    if m.len() > 0 {
        assert(m.last() == m[m.len() - 1]);
        assert forall|k: int| 0 <= k < m.drop_last().len() implies field_for(
            fields,
            (#[trigger] m.drop_last()[k]).0,
        ) == field_for(fields, n.drop_last()[k].0) && m.drop_last()[k].1 == n.drop_last()[k].1 by {
            assert(m.drop_last()[k] == m[k]);
        }
        lemma_given_alike(fields, m.drop_last(), n.drop_last(), i);
    }
}

/// Members with the same values for the same fields give the same twice.
proof fn lemma_twice_alike(
    fields: Seq<ArgsFieldView>,
    m: Seq<(Seq<char>, Tree)>,
    n: Seq<(Seq<char>, Tree)>,
)
    requires
        m.len() == n.len(),
        forall|k: int|
            0 <= k < m.len() ==> field_for(fields, (#[trigger] m[k]).0) == field_for(fields, n[k].0)
                && m[k].1 == n[k].1,
    ensures
        given_twice(fields, m) == given_twice(fields, n),
    decreases m.len(),
{
    if m.len() > 0 {
        assert(m.last() == m[m.len() - 1]);
        assert forall|k: int| 0 <= k < m.drop_last().len() implies field_for(
            fields,
            (#[trigger] m.drop_last()[k]).0,
        ) == field_for(fields, n.drop_last()[k].0) && m.drop_last()[k].1 == n.drop_last()[k].1 by {
            assert(m.drop_last()[k] == m[k]);
        }
        lemma_twice_alike(fields, m.drop_last(), n.drop_last());
        if field_for(fields, m.last().0) is Some {
            lemma_given_alike(
                fields,
                m.drop_last(),
                n.drop_last(),
                field_for(fields, m.last().0)->0,
            );
        }
    }
}

/// Members that give the same leave out the same.
proof fn lemma_left_out_alike(
    fields: Seq<ArgsFieldView>,
    m: Seq<(Seq<char>, Tree)>,
    n: Seq<(Seq<char>, Tree)>,
    i: int,
)
    requires
        forall|i: int| given(fields, m, i) == given(fields, n, i),
    ensures
        left_out(fields, m, i) == left_out(fields, n, i),
    decreases fields.len() - i,
{
    if 0 <= i < fields.len() {
        lemma_left_out_alike(fields, m, n, i + 1);
    }
}

/// What is given twice by the first members is given twice by all.
proof fn lemma_twice_stays(fields: Seq<ArgsFieldView>, m: Seq<(Seq<char>, Tree)>, k: int)
    requires
        0 <= k <= m.len(),
        given_twice(fields, m.take(k)) is Some,
    ensures
        given_twice(fields, m) == given_twice(fields, m.take(k)),
    decreases m.len(),
{
    if k == m.len() {
        assert(m.take(k) =~= m);
    } else {
        assert(m.drop_last().take(k) =~= m.take(k));
        lemma_twice_stays(fields, m.drop_last(), k);
    }
}

} // verus!
