//! The event envelope model: a kind tag with an opaque payload, the
//! decoding of a response body into envelopes, and the filter that
//! keeps exactly the envelopes of one requested kind.

use vstd::prelude::*;
use vstd::seq_lib::*;

use crate::json::json_array_of;
use crate::json::json_clone;
use crate::json::json_field;
use crate::json::json_field_of;
use crate::json::json_i64;
use crate::json::json_i64_of;
use crate::json::json_into_array;
use crate::json::json_parse;
use crate::json::json_parses;
use crate::json::json_str_of;
use crate::json::json_string;
use crate::json::json_value_of;

verus! {

/// The kinds of event a caller can ask for.
#[derive(Clone, Copy)]
pub enum EventType {
    PushEvent,
}

impl EventType {
    /// The kind tag this event type matches, as it stands on the wire.
    pub open spec fn spec_str(&self) -> Seq<char> {
        match self {
            EventType::PushEvent => "PushEvent"@,
        }
    }

    pub fn as_str(&self) -> (r: &'static str)
        ensures
            r@ == self.spec_str(),
    {
        match self {
            EventType::PushEvent => "PushEvent",
        }
    }
}

/// Why a decode gave no value: the text was not a JSON document at all,
/// or it was one of the wrong shape (not an array of envelope objects,
/// or a payload without the requested fields).
#[derive(Clone, Copy, PartialEq, Eq, Structural, Debug)]
pub enum DecodeError {
    Syntax,
    Shape,
}

/// One record of the feed: a kind tag and an opaque payload, never
/// interpreted here beyond what a decode asks of it.
#[derive(Debug)]
pub struct Event {
    pub kind: String,
    payload: serde_json::Value,
}

impl Event {
    /// The kind tag, as a spec-level sequence of characters.
    pub closed spec fn spec_kind(&self) -> Seq<char> {
        self.kind@
    }

    /// The stored payload value.
    pub closed spec fn spec_payload(&self) -> serde_json::Value {
        self.payload
    }

    /// What an envelope is made of: its kind tag and its payload value.
    pub open spec fn model(&self) -> (Seq<char>, serde_json::Value) {
        (self.spec_kind(), self.spec_payload())
    }
}

/// The kind tags and payload values of a batch, in order.
pub open spec fn events_model(s: Seq<Event>) -> Seq<(Seq<char>, serde_json::Value)> {
    s.map_values(|e: Event| e.model())
}

/// What the push decode reads of a payload value: its `push_id` field,
/// when that is an integer representable as an `i64`.
pub open spec fn push_of(payload: serde_json::Value) -> Option<i64> {
    match json_field_of(payload, "push_id"@) {
        Some(f) => json_i64_of(f),
        None => None,
    }
}

/// The push shape of a payload: the integer identity callers
/// deduplicate by.
#[derive(Debug)]
pub struct PushEvent {
    pub push_id: i64,
}

impl Event {
    /// Decodes the payload into the push shape: an object carrying an
    /// integer `push_id` field.  Succeeds with that integer exactly
    /// when the payload's structure matches, and fails with
    /// `DecodeError::Shape` otherwise; the stored payload is only
    /// read, so the decode repeats with the same outcome.
    pub fn payload(&self) -> (r: Result<PushEvent, DecodeError>)
        ensures
            match push_of(self.spec_payload()) {
                Some(id) => r matches Ok(p) && p.push_id == id,
                None => r == Err::<PushEvent, DecodeError>(DecodeError::Shape),
            },
    {
        match json_field(&self.payload, "push_id") {
            Some(field) => match json_i64(field) {
                Some(id) => Ok(PushEvent { push_id: id }),
                None => Err(DecodeError::Shape),
            },
            None => Err(DecodeError::Shape),
        }
    }

    /// A copy of the raw payload value, for consumers that decode
    /// shapes this library does not model.
    pub fn payload_value(&self) -> (r: serde_json::Value)
        ensures
            r == self.spec_payload(),
    {
        json_clone(&self.payload)
    }
}

/// What one array element must look like to be an envelope: an object
/// with a string `type` field and a `payload` field, read as the pair
/// of the two.
pub open spec fn envelope_of(v: serde_json::Value) -> Option<(Seq<char>, serde_json::Value)> {
    match json_field_of(v, "type"@) {
        Some(tag) => match json_str_of(tag) {
            Some(kind) => match json_field_of(v, "payload"@) {
                Some(p) => Some((kind, p)),
                None => None,
            },
            None => None,
        },
        None => None,
    }
}

/// The envelopes of an array's elements, in order, or nothing as soon
/// as one element is not an envelope.
pub open spec fn decode_items(items: Seq<serde_json::Value>) -> Option<
    Seq<(Seq<char>, serde_json::Value)>,
>
    decreases items.len(),
{
    if items.len() == 0 {
        Some(Seq::empty())
    } else {
        match decode_items(items.drop_last()) {
            Some(rest) => match envelope_of(items.last()) {
                Some(e) => Some(rest.push(e)),
                None => None,
            },
            None => None,
        }
    }
}

/// What a response body decodes to: the envelopes of its JSON array,
/// or nothing when the body is not well-formed JSON, not an array, or
/// an array with a non-envelope element.
pub open spec fn body_decode(s: Seq<char>) -> Option<Seq<(Seq<char>, serde_json::Value)>> {
    match json_value_of(s) {
        Some(doc) => match json_array_of(doc) {
            Some(items) => decode_items(items),
            None => None,
        },
        None => None,
    }
}

/// A decodable array has only decodable elements.
proof fn lemma_decode_items_some_all(items: Seq<serde_json::Value>)
    requires
        decode_items(items) is Some,
    ensures
        forall|i: int| 0 <= i < items.len() ==> (#[trigger] envelope_of(items[i])) is Some,
    decreases items.len(),
{
    if items.len() > 0 {
        lemma_decode_items_some_all(items.drop_last());
        assert forall|i: int| 0 <= i < items.len() implies (#[trigger] envelope_of(
            items[i],
        )) is Some by {
            if i < items.len() - 1 {
                assert(items.drop_last()[i] == items[i]);
                assert(envelope_of(items.drop_last()[i]) is Some);
            } else {
                assert(items[i] == items.last());
            }
        }
    }
}

/// Decodes a response body into envelopes: the body must be a JSON
/// array of objects, each with a string `type` field and a `payload`
/// field.  Returns exactly the body's decode; errs with `Syntax`
/// exactly when the body is not well-formed JSON, and with `Shape`
/// when it is JSON of any other form.
pub fn parse_events(body: &str) -> (r: Result<Vec<Event>, DecodeError>)
    ensures
        match body_decode(body@) {
            Some(models) => r matches Ok(es) && events_model(es@) == models,
            None => r matches Err(e) && e == (if json_parses(body@) {
                DecodeError::Shape
            } else {
                DecodeError::Syntax
            }),
        },
{
    let parsed = match json_parse(body) {
        Some(v) => v,
        None => {
            return Err(DecodeError::Syntax);
        },
    };
    let items = match json_into_array(parsed) {
        Some(items) => items,
        None => {
            return Err(DecodeError::Shape);
        },
    };
    let mut events: Vec<Event> = Vec::new();
    let mut i: usize = 0;
    proof {
        assert(items@.subrange(0, 0) =~= Seq::<serde_json::Value>::empty());
        assert(events_model(events@) =~= Seq::<(Seq<char>, serde_json::Value)>::empty());
    }
    while i < items.len()
        invariant
            i <= items@.len(),
            json_value_of(body@) matches Some(doc) && json_array_of(doc) == Some(items@),
            decode_items(items@.subrange(0, i as int)) == Some(events_model(events@)),
        decreases items@.len() - i,
    {
        let ghost element = items@[i as int];
        let kind = match json_field(&items[i], "type") {
            Some(tag) => match json_string(tag) {
                Some(text) => text,
                None => {
                    proof {
                        lemma_not_envelope_fails(items@, i as int);
                    }
                    return Err(DecodeError::Shape);
                },
            },
            None => {
                proof {
                    lemma_not_envelope_fails(items@, i as int);
                }
                return Err(DecodeError::Shape);
            },
        };
        let payload = match json_field(&items[i], "payload") {
            Some(p) => json_clone(p),
            None => {
                proof {
                    lemma_not_envelope_fails(items@, i as int);
                }
                return Err(DecodeError::Shape);
            },
        };
        let ghost before = events@;
        let ghost gkind = kind@;
        let ghost gpayload = payload;
        events.push(Event { kind, payload });
        proof {
            assert(envelope_of(element) == Some((gkind, gpayload)));
            let next = items@.subrange(0, i + 1);
            assert(next.drop_last() =~= items@.subrange(0, i as int));
            assert(next.last() == element);
            assert(events_model(events@) =~= events_model(before).push((gkind, gpayload)));
            assert(decode_items(next) == Some(events_model(events@)));
        }
        i = i + 1;
    }
    proof {
        assert(items@.subrange(0, items@.len() as int) =~= items@);
    }
    Ok(events)
}

/// An array with one non-envelope element decodes to nothing.
proof fn lemma_not_envelope_fails(items: Seq<serde_json::Value>, i: int)
    requires
        0 <= i < items.len(),
        envelope_of(items[i]) is None,
    ensures
        decode_items(items) is None,
{
    if decode_items(items) is Some {
        lemma_decode_items_some_all(items);
        assert(envelope_of(items[i]) is Some);
    }
}

/// The envelopes of one kind, in their original relative order.
pub open spec fn filtered_spec(s: Seq<Event>, requested: EventType) -> Seq<Event> {
    s.filter(|e: Event| e.spec_kind() == requested.spec_str())
}

/// Filter correctness: every kept envelope bears the requested kind,
/// no more envelopes are kept than there were, and every envelope of
/// the requested kind is among the kept ones.
pub proof fn lemma_filtered_spec_correct(s: Seq<Event>, requested: EventType)
    ensures
        forall|i: int|
            0 <= i < filtered_spec(s, requested).len() ==> (#[trigger] filtered_spec(s, requested)[i]).spec_kind()
                == requested.spec_str(),
        filtered_spec(s, requested).len() <= s.len(),
        forall|i: int|
            0 <= i < s.len() && (#[trigger] s[i]).spec_kind() == requested.spec_str()
                ==> filtered_spec(s, requested).contains(s[i]),
{
    broadcast use vstd::seq_lib::group_filter_ensures;
}

/// Filtering envelopes by kind is filtering their models by kind tag:
/// what `filter_events` keeps of a batch is read off the batch's
/// decoded kind tags and payloads alone.
pub proof fn lemma_model_filter_commutes(s: Seq<Event>, requested: EventType)
    ensures
        events_model(filtered_spec(s, requested)) == events_model(s).filter(
            |m: (Seq<char>, serde_json::Value)| m.0 == requested.spec_str(),
        ),
    decreases s.len(),
{
    reveal_with_fuel(Seq::<_>::filter, 1);
    let pe = |e: Event| e.spec_kind() == requested.spec_str();
    let pm = |m: (Seq<char>, serde_json::Value)| m.0 == requested.spec_str();
    if s.len() == 0 {
        assert(s =~= Seq::<Event>::empty());
        assert(s.filter(pe) =~= Seq::<Event>::empty());
        assert(events_model(s) =~= Seq::<(Seq<char>, serde_json::Value)>::empty());
        assert(events_model(s).filter(pm) =~= Seq::<(Seq<char>, serde_json::Value)>::empty());
        assert(events_model(s.filter(pe)) =~= Seq::<(Seq<char>, serde_json::Value)>::empty());
    } else {
        let t = s.drop_last();
        lemma_model_filter_commutes(t, requested);
        let ms = events_model(s);
        assert(ms.len() == s.len());
        assert(ms.drop_last() =~= events_model(t));
        assert(ms.last() == s.last().model());
        assert(s.filter(pe) == if pe(s.last()) {
            t.filter(pe).push(s.last())
        } else {
            t.filter(pe)
        });
        assert(ms.filter(pm) == if pm(ms.last()) {
            ms.drop_last().filter(pm).push(ms.last())
        } else {
            ms.drop_last().filter(pm)
        });
        if pe(s.last()) {
            assert(events_model(t.filter(pe).push(s.last())) =~= events_model(t.filter(pe)).push(
                s.last().model(),
            ));
        }
        assert(filtered_spec(s, requested) == s.filter(pe));
        assert(filtered_spec(t, requested) == t.filter(pe));
    }
}

/// Keeps exactly the envelopes whose kind equals the requested kind, in
/// their original relative order, and no others.
pub fn filter_events(events: Vec<Event>, requested: &EventType) -> (out: Vec<Event>)
    ensures
        out@ == filtered_spec(events@, *requested),
{
    let ghost all = events@;
    let ghost pred = |e: Event| e.spec_kind() == requested.spec_str();
    let want: String = requested.as_str().to_owned();
    let mut rest = events;
    let mut out: Vec<Event> = Vec::new();
    proof {
        reveal_with_fuel(Seq::<_>::filter, 1);
        assert(all.take(0) =~= Seq::<Event>::empty());
    }
    while rest.len() > 0
        invariant
            rest@.len() <= all.len(),
            rest@ == all.skip(all.len() - rest@.len()),
            out@ == all.take(all.len() - rest@.len()).filter(pred),
            want@ == requested.spec_str(),
            pred == (|e: Event| e.spec_kind() == requested.spec_str()),
        decreases rest.len(),
    {
        let ghost old_rest = rest@;
        let ghost done = all.len() - old_rest.len();
        let e = rest.remove(0);
        proof {
            assert(old_rest == all.skip(done));
            assert(e == old_rest[0]);
            assert(all.skip(done)[0] == all[done]);
            assert(e == all[done]);
            assert(rest@ =~= all.skip(done + 1));
            let prefix = all.take(done);
            let single = seq![e];
            assert(all.take(done + 1) =~= prefix + single);
            Seq::<Event>::filter_distributes_over_add(prefix, single, pred);
            reveal_with_fuel(Seq::<_>::filter, 2);
            assert(single.drop_last() =~= Seq::<Event>::empty());
            assert(single.filter(pred) == if pred(e) {
                seq![e]
            } else {
                Seq::<Event>::empty()
            });
        }
        if e.kind == want {
            let ghost before = out@;
            out.push(e);
            proof {
                assert(out@ =~= before + seq![e]);
                assert(out@ == all.take(done + 1).filter(pred));
            }
        } else {
            proof {
                assert(out@ =~= all.take(done).filter(pred) + Seq::<Event>::empty());
                assert(out@ == all.take(done + 1).filter(pred));
            }
        }
    }
    proof {
        assert(all.take(all.len() as int) =~= all);
    }
    out
}

} // verus!
