// SPDX-License-Identifier: GPL-2.0-or-later
//! What a vendor request answers: a list of named values, set one after the
//! other.

use vstd::prelude::*;

verus! {

/// One value of an answer.
pub enum Value {
    Bool(bool),
    Int(i64),
    Text(String),
    /// An array of objects, each with a `name` and one more text under the
    /// key given first.
    Pairs(String, Vec<(String, String)>),
}

pub ghost enum ValueView {
    Bool(bool),
    Int(i64),
    Text(Seq<char>),
    Pairs(Seq<char>, Seq<(Seq<char>, Seq<char>)>),
}

/// The texts of a list of pairs.
pub open spec fn pair_views(pairs: Seq<(String, String)>) -> Seq<(Seq<char>, Seq<char>)> {
    pairs.map_values(|pair: (String, String)| (pair.0@, pair.1@))
}

pub open spec fn value_view(value: Value) -> ValueView {
    match value {
        Value::Bool(b) => ValueView::Bool(b),
        Value::Int(n) => ValueView::Int(n),
        Value::Text(text) => ValueView::Text(text@),
        Value::Pairs(key, pairs) => ValueView::Pairs(key@, pair_views(pairs@)),
    }
}

/// An answer.
pub struct Response {
    fields: Vec<(String, Value)>,
}

impl View for Response {
    type V = Seq<(Seq<char>, ValueView)>;

    closed spec fn view(&self) -> Seq<(Seq<char>, ValueView)> {
        self.fields@.map_values(|field: (String, Value)| (field.0@, value_view(field.1)))
    }
}

/// The answer of a request that was carried out and has nothing to add.
pub open spec fn accepted() -> Seq<(Seq<char>, ValueView)> {
    seq![("ok"@, ValueView::Bool(true))]
}

/// The answer of a request that was not carried out.
pub open spec fn refused(error: Seq<char>) -> Seq<(Seq<char>, ValueView)> {
    seq![("ok"@, ValueView::Bool(false)), ("error"@, ValueView::Text(error))]
}

/// The answer to a request that only succeeds or fails.
pub open spec fn reported(outcome: Result<(), String>) -> Seq<(Seq<char>, ValueView)> {
    match outcome {
        Ok(_) => accepted(),
        Err(error) => refused(error@),
    }
}

impl Response {
    pub fn new() -> (response: Self)
        ensures
            response@ == Seq::<(Seq<char>, ValueView)>::empty(),
    {
        let response = Response { fields: Vec::new() };
        assert(response@ =~= Seq::<(Seq<char>, ValueView)>::empty());
        response
    }

    fn set(&mut self, key: &str, value: Value)
        ensures
            final(self)@ == old(self)@.push((key@, value_view(value))),
    {
        let ghost before = self@;
        self.fields.push((key.to_owned(), value));
        assert(self@ =~= before.push((key@, value_view(value))));
    }

    pub fn set_bool(&mut self, key: &str, value: bool)
        ensures
            final(self)@ == old(self)@.push((key@, ValueView::Bool(value))),
    {
        self.set(key, Value::Bool(value));
    }

    pub fn set_int(&mut self, key: &str, value: i64)
        ensures
            final(self)@ == old(self)@.push((key@, ValueView::Int(value))),
    {
        self.set(key, Value::Int(value));
    }

    pub fn set_string(&mut self, key: &str, value: &str)
        ensures
            final(self)@ == old(self)@.push((key@, ValueView::Text(value@))),
    {
        self.set(key, Value::Text(value.to_owned()));
    }

    pub fn set_pair_array(&mut self, key: &str, second: &str, pairs: Vec<(String, String)>)
        ensures
            final(self)@ == old(self)@.push((key@, ValueView::Pairs(second@, pair_views(pairs@)))),
    {
        self.set(key, Value::Pairs(second.to_owned(), pairs));
    }

    /// An answer that says only that the request was carried out.
    pub fn accept() -> (response: Self)
        ensures
            response@ == accepted(),
            response@ == seq![("ok"@, ValueView::Bool(true))],
    {
        let mut response = Response::new();
        response.set_bool("ok", true);
        assert(response@ =~= accepted());
        response
    }

    /// An answer that says why the request was not carried out.
    pub fn refuse(error: &str) -> (response: Self)
        ensures
            response@ == refused(error@),
            response@ == seq![("ok"@, ValueView::Bool(false)), ("error"@, ValueView::Text(error@))],
    {
        let mut response = Response::new();
        response.set_bool("ok", false);
        response.set_string("error", error);
        assert(response@ =~= refused(error@));
        response
    }

    /// The answer to a request that only succeeds or fails.
    pub fn report(outcome: &Result<(), String>) -> (response: Self)
        ensures
            response@ == reported(*outcome),
            ({
                let outcome = *outcome;
                response@ == (match outcome {
                    Ok(_) => accepted(),
                    Err(error) => refused(error@),
                })
            }),
    {
        match outcome {
            Ok(_) => Response::accept(),
            Err(error) => Response::refuse(error.as_str()),
        }
    }

    /// How many values the answer holds.
    pub fn len(&self) -> (n: usize)
        ensures
            n == self@.len(),
    {
        self.fields.len()
    }

    /// The key of the `i`-th value.
    pub fn key_at(&self, i: usize) -> (key: &String)
        requires
            i < self@.len(),
        ensures
            key@ == self@[i as int].0,
    {
        &self.fields[i].0
    }

    /// The `i`-th value.
    pub fn value_at(&self, i: usize) -> (value: &Value)
        requires
            i < self@.len(),
        ensures
            value_view(*value) == self@[i as int].1,
            match *value {
                Value::Bool(b) => self@[i as int].1 == ValueView::Bool(b),
                Value::Int(n) => self@[i as int].1 == ValueView::Int(n),
                Value::Text(text) => self@[i as int].1 == ValueView::Text(text@),
                Value::Pairs(key, pairs) => self@[i as int].1 == ValueView::Pairs(
                    key@,
                    Seq::new(pairs@.len(), |k: int| (pairs@[k].0@, pairs@[k].1@)),
                ),
            },
    {
        proof {
            match self.fields@[i as int].1 {
                Value::Pairs(_, pairs) => {
                    assert(pair_views(pairs@) =~= Seq::new(pairs@.len(), |k: int| (pairs@[k].0@, pairs@[k].1@)));
                },
                _ => {},
            }
        }
        &self.fields[i].1
    }
}

/// The texts of pairs are the pairs' own characters, in order.
pub proof fn pair_views_are_the_pairs(pairs: Seq<(String, String)>)
    ensures
        pair_views(pairs).len() == pairs.len(),
        forall|i: int| 0 <= i < pairs.len() ==> (#[trigger] pair_views(pairs)[i]).0 == pairs[i].0@,
        forall|i: int| 0 <= i < pairs.len() ==> (#[trigger] pair_views(pairs)[i]).1 == pairs[i].1@,
{
}

/// What an answer says: that the request was carried out, and nothing else;
/// or that it was not, and why.
pub proof fn an_answer_says_how_it_went(error: Seq<char>, outcome: Result<(), String>)
    ensures
        accepted() == seq![("ok"@, ValueView::Bool(true))],
        refused(error) == seq![("ok"@, ValueView::Bool(false)), ("error"@, ValueView::Text(error))],
        outcome is Ok ==> reported(outcome) == seq![("ok"@, ValueView::Bool(true))],
        outcome matches Err(message) ==> reported(outcome) == seq![
            ("ok"@, ValueView::Bool(false)),
            ("error"@, ValueView::Text(message@)),
        ],
{
}

} // verus!
