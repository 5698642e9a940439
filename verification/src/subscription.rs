//! Subscriptions: their IDs, the messages sent for them, and maps from IDs to what stands for
//! them.

use crate::error::{data_error, Error, ErrorView};
use crate::fields::{field_names, read_record, record, ref_view};
use crate::json::{
    array_tree, distinct_names, entry_members, lemma_array, lemma_lookup_at, Json, JsonError,
    JsonNumber, JsonObject, Tree,
};
use crate::text::{decimal, to_decimal};
use vstd::prelude::*;

verus! {

/// The ID of a subscription.
#[derive(Debug, PartialEq, Eq, Hash)]
pub enum SubscriptionId {
    /// A text.
    String(String),
    /// A number.
    Number(u64),
}

/// What the ID of a subscription says.
pub enum SubId {
    /// A text.
    String(Seq<char>),
    /// A number.
    Number(u64),
}

impl View for SubscriptionId {
    type V = SubId;

    open spec fn view(&self) -> SubId {
        match *self {
            SubscriptionId::String(s) => SubId::String(s@),
            SubscriptionId::Number(n) => SubId::Number(n),
        }
    }
}

/// The JSON form of an ID.
pub open spec fn id_tree(id: SubId) -> Tree {
    match id {
        SubId::String(s) => Tree::String(s),
        SubId::Number(n) => Tree::Int(n as int),
    }
}

/// The ID that a JSON value stands for, if it stands for one.
pub open spec fn id_of(t: Tree) -> Option<SubId> {
    match t {
        Tree::String(s) => Some(SubId::String(s)),
        Tree::Int(n) => if 0 <= n <= u64::MAX {
            Some(SubId::Number(n as u64))
        } else {
            None
        },
        _ => None,
    }
}

/// An ID is read back from its JSON form.
pub proof fn lemma_id_round_trip(id: SubId)
    ensures
        id_of(id_tree(id)) == Some(id),
{
}

/// The IDs that a JSON value lists, if it is a list of IDs.
pub open spec fn ids_of(t: Tree) -> Option<Seq<SubId>> {
    match t {
        Tree::Array(s) => if forall|i: int| 0 <= i < s.len() ==> id_of(#[trigger] s[i]) is Some {
            Some(s.map_values(|t: Tree| id_of(t)->0))
        } else {
            None
        },
        _ => None,
    }
}

/// The text of an ID.
pub open spec fn id_text(id: SubId) -> Seq<char> {
    match id {
        SubId::String(s) => s,
        SubId::Number(n) => decimal(n as nat),
    }
}

/// What a list of IDs says.
pub open spec fn ids_view(ids: Seq<SubscriptionId>) -> Seq<SubId> {
    ids.map_values(|id: SubscriptionId| id@)
}

impl SubscriptionId {
    /// Reads an ID.
    fn read(v: &Json) -> (r: Option<SubscriptionId>)
        ensures
            match id_of(v@) {
                Some(id) => r matches Some(x) && x@ == id,
                None => r is None,
            },
    {
        match v {
            Json::String(s) => Some(SubscriptionId::String(s.clone())),
            _ => match v.as_u64() {
                Some(n) => Some(SubscriptionId::Number(n)),
                None => None,
            },
        }
    }

    /// Takes a JSON value for an ID: a text, or a whole number that is not negative.
    pub fn try_from(value: Json) -> (r: Result<SubscriptionId, Error>)
        ensures
            match id_of(value@) {
                Some(id) => r matches Ok(x) && x@ == id,
                None => r matches Err(x) && x@ == ErrorView::InvalidSubscriptionId(value@),
            },
    {
        match Self::read(&value) {
            Some(id) => Ok(id),
            None => Err(Error::InvalidSubscriptionId(value)),
        }
    }

    /// The JSON form of the ID.
    pub fn to_value(&self) -> (r: Json)
        ensures
            r@ == id_tree(self@),
    {
        match self {
            SubscriptionId::String(s) => Json::String(s.clone()),
            SubscriptionId::Number(n) => Json::Number(JsonNumber::PosInt(*n)),
        }
    }

    /// The text of the ID.
    pub fn to_text(&self) -> (r: String)
        ensures
            r@ == id_text(self@),
    {
        match self {
            SubscriptionId::String(s) => s.clone(),
            SubscriptionId::Number(n) => to_decimal(*n),
        }
    }

    /// Reads a list of IDs.
    pub fn read_list(v: &Json) -> (r: Option<Vec<SubscriptionId>>)
        ensures
            match ids_of(v@) {
                Some(ids) => r matches Some(x) && ids_view(x@) == ids,
                None => r is None,
            },
    {
        broadcast use lemma_array;

        let items = match v {
            Json::Array(items) => items,
            _ => return None,
        };
        let mut ids: Vec<SubscriptionId> = Vec::new();
        for i in 0..items.len()
            invariant
                v@ == array_tree(items@),
                ids@.len() == i,
                forall|j: int| 0 <= j < i ==> id_of(items@[j]@) == Some((#[trigger] ids@[j])@),
        {
            match Self::read(&items[i]) {
                Some(id) => ids.push(id),
                None => {
                    assert(id_of(v@->Array_0[i as int]) is None);
                    return None;
                },
            }
        }
        assert forall|i: int| 0 <= i < items@.len() implies id_of(#[trigger] v@->Array_0[i])
            == Some(ids@[i]@) by {}
        assert(ids_view(ids@) =~= ids_of(v@)->0);
        Some(ids)
    }

    /// The JSON form of a list of IDs.
    pub fn list_to_value(ids: &Vec<SubscriptionId>) -> (r: Json)
        ensures
            r@ == Tree::Array(ids_view(ids@).map_values(|id: SubId| id_tree(id))),
    {
        broadcast use lemma_array;

        let mut items: Vec<Json> = Vec::new();
        for i in 0..ids.len()
            invariant
                items@.len() == i,
                forall|j: int| 0 <= j < i ==> (#[trigger] items@[j])@ == id_tree(ids@[j]@),
        {
            items.push(ids[i].to_value());
        }
        assert(array_tree(items@)->Array_0 =~= ids_view(ids@).map_values(|id: SubId| id_tree(id)));
        Json::Array(items)
    }
}

impl Clone for SubscriptionId {
    fn clone(&self) -> (r: Self)
        ensures
            r@ == self@,
    {
        match self {
            SubscriptionId::String(s) => SubscriptionId::String(s.clone()),
            SubscriptionId::Number(n) => SubscriptionId::Number(*n),
        }
    }
}

impl From<u64> for SubscriptionId {
    fn from(n: u64) -> (r: Self) {
        SubscriptionId::Number(n)
    }
}

impl vstd::std_specs::convert::FromSpecImpl<u64> for SubscriptionId {
    open spec fn obeys_from_spec() -> bool {
        true
    }

    open spec fn from_spec(n: u64) -> Self {
        SubscriptionId::Number(n)
    }
}

impl From<String> for SubscriptionId {
    fn from(s: String) -> (r: Self) {
        SubscriptionId::String(s)
    }
}

impl vstd::std_specs::convert::FromSpecImpl<String> for SubscriptionId {
    open spec fn obeys_from_spec() -> bool {
        true
    }

    open spec fn from_spec(s: String) -> Self {
        SubscriptionId::String(s)
    }
}

/// A message to a subscriber.
#[derive(Debug, PartialEq, Eq)]
pub struct SubscriptionMessage<T> {
    /// The subscription.
    pub subscription: SubscriptionId,
    /// The item that it yielded.
    pub result: T,
}

/// What a message to a subscriber says.
pub struct SubscriptionMessageView {
    /// The subscription.
    pub subscription: SubId,
    /// The item that it yielded.
    pub result: Tree,
}

impl View for SubscriptionMessage<Json> {
    type V = SubscriptionMessageView;

    open spec fn view(&self) -> SubscriptionMessageView {
        SubscriptionMessageView { subscription: self.subscription@, result: self.result@ }
    }
}

/// The fields of a message to a subscriber.
pub open spec fn subscription_message_fields() -> Seq<Seq<char>> {
    seq!["subscription"@, "result"@]
}

/// The JSON form of a message to a subscriber.
pub open spec fn subscription_message_tree(m: SubscriptionMessageView) -> Tree {
    Tree::Object(seq![("subscription"@, id_tree(m.subscription)), ("result"@, m.result)])
}

/// The message to a subscriber that a JSON value stands for, if it stands for one. Members beyond
/// the two are passed over.
pub open spec fn subscription_message_of(t: Tree) -> Option<SubscriptionMessageView> {
    match record(t, subscription_message_fields(), false) {
        Some(slots) => match (slots[0], slots[1]) {
            (Some(id), Some(result)) => match id_of(id) {
                Some(subscription) => Some(SubscriptionMessageView { subscription, result }),
                None => None,
            },
            _ => None,
        },
        None => None,
    }
}

proof fn lemma_subscription_message_names()
    ensures
        "subscription"@ != "result"@,
{
    reveal_strlit("subscription");
    reveal_strlit("result");
    assert("subscription"@.len() == 12 && "result"@.len() == 6);
}

/// A message to a subscriber is read back from its JSON form.
pub proof fn lemma_subscription_message_round_trip(m: SubscriptionMessageView)
    ensures
        subscription_message_of(subscription_message_tree(m)) == Some(m),
{
    lemma_subscription_message_names();
    let members = subscription_message_tree(m)->Object_0;
    assert(distinct_names(members));
    lemma_lookup_at(members, 0);
    lemma_lookup_at(members, 1);
    lemma_id_round_trip(m.subscription);
}

impl SubscriptionMessage<Json> {
    /// Reads a message to a subscriber.
    pub fn from_value(v: &Json) -> (r: Result<SubscriptionMessage<Json>, Error>)
        ensures
            match subscription_message_of(v@) {
                Some(m) => r matches Ok(x) && x@ == m,
                None => r matches Err(x) && x@ == ErrorView::Json(data_error()),
            },
    {
        let names: Vec<&'static str> = vec!["subscription", "result"];
        assert(field_names(names@) =~= subscription_message_fields());
        let slots = match read_record(v, &names, false) {
            Some(slots) => slots,
            None => return Err(Error::Json(JsonError::data())),
        };
        assert(ref_view(slots@[0]) == record(v@, subscription_message_fields(), false)->0[0]);
        assert(ref_view(slots@[1]) == record(v@, subscription_message_fields(), false)->0[1]);
        match (slots[0], slots[1]) {
            (Some(id), Some(result)) => match SubscriptionId::read(id) {
                Some(subscription) => Ok(
                    SubscriptionMessage { subscription, result: result.clone() },
                ),
                None => Err(Error::Json(JsonError::data())),
            },
            _ => Err(Error::Json(JsonError::data())),
        }
    }

    /// The JSON form of the message.
    pub fn into_value(self) -> (r: Json)
        ensures
            r@ == subscription_message_tree(self@),
    {
        proof {
            lemma_subscription_message_names();
        }
        let mut entries: Vec<(String, Json)> = Vec::new();
        entries.push(("subscription".to_owned(), self.subscription.to_value()));
        entries.push(("result".to_owned(), self.result));
        assert(entry_members(entries@) =~= subscription_message_tree(self@)->Object_0);
        Json::Object(JsonObject::from_entries(entries))
    }
}

} // verus!
