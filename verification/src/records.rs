//! Stored series: a JSON array of records that new records are appended to.
use vstd::prelude::*;
use crate::text::{concat, is_blank, is_blank_text};
use serde_json::Value;

verus! {

broadcast use vstd::string::group_string_axioms;

/// New records: a list of them, or a single one.
pub enum Records<T> {
    Many(Vec<T>),
    One(T),
}

/// The records, in order.
pub open spec fn records_items<T>(r: Records<T>) -> Seq<T> {
    match r {
        Records::Many(v) => v@,
        Records::One(x) => seq![x],
    }
}

/// The stored records followed by the new ones: a list is spliced in, a
/// single record is added at the end.
pub fn append_records<T>(existing: Vec<T>, incoming: Records<T>) -> (res: Vec<T>)
    ensures
        res@ == existing@ + records_items(incoming),
        incoming matches Records::Many(v) ==> res@ == existing@ + v@,
        incoming matches Records::One(x) ==> res@ == existing@.push(x),
{
    let mut data = existing;
    match incoming {
        Records::Many(v) => {
            let mut v = v;
            data.append(&mut v);
        },
        Records::One(x) => {
            data.push(x);
        },
    }
    data
}

/// Appending two batches one after the other stores the same records as
/// appending them together, and the number of stored records grows by the
/// number of new ones.
pub proof fn lemma_append_in_steps<T>(existing: Seq<T>, first: Seq<T>, second: Seq<T>)
    ensures
        (existing + first) + second == existing + (first + second),
        (existing + first).len() == existing.len() + first.len(),
{
    assert((existing + first) + second =~= existing + (first + second));
}

// ---------------------------------------------------------------------------
// JSON
// ---------------------------------------------------------------------------

#[verifier::external_type_specification]
#[verifier::external_body]
pub struct ExJsonValue(serde_json::Value);

/// What `serde_json::from_str::<Vec<Value>>` gives for a text: the values of
/// the array that it holds, or the message of the error.
pub uninterp spec fn json_array_parse(text: Seq<char>) -> Result<Seq<Value>, Seq<char>>;

/// What `serde_json::to_string_pretty` gives for an array of values: its
/// text, or the message of the error.
pub uninterp spec fn json_array_pretty(values: Seq<Value>) -> Result<Seq<char>, Seq<char>>;

/// The elements of a JSON value when it is an array.
pub uninterp spec fn json_array_elements(v: Value) -> Option<Seq<Value>>;

/// Parses `text` with `serde_json::from_str` as an array of values; an
/// error becomes its displayed text. Trusted: the result is only known to
/// be serde_json's own function of the text.
#[verifier::external_body]
fn parse_json_array(text: &str) -> (res: Result<Vec<Value>, String>)
    ensures
        match json_array_parse(text@) {
            Ok(v) => res is Ok && res->Ok_0@ == v,
            Err(m) => res is Err && res->Err_0@ == m,
        },
{
    match serde_json::from_str::<Vec<Value>>(text) {
        Ok(v) => Ok(v),
        Err(e) => Err(e.to_string()),
    }
}

/// Writes `values` with `serde_json::to_string_pretty`; an error becomes its
/// displayed text. Trusted: the result is only known to be serde_json's own
/// function of the values.
#[verifier::external_body]
fn pretty_json_array(values: &Vec<Value>) -> (res: Result<String, String>)
    ensures
        match json_array_pretty(values@) {
            Ok(t) => res is Ok && res->Ok_0@ == t,
            Err(m) => res is Err && res->Err_0@ == m,
        },
{
    match serde_json::to_string_pretty(values) {
        Ok(t) => Ok(t),
        Err(e) => Err(e.to_string()),
    }
}

/// Tells a `serde_json::Value::Array` from the other values: an array gives
/// its elements, any other value is a single record. Trusted: the elements
/// are those of `json_array_elements`.
#[verifier::external_body]
fn json_records(v: Value) -> (res: Records<Value>)
    ensures
        match json_array_elements(v) {
            Some(items) => res is Many && res->Many_0@ == items,
            None => res == Records::One(v),
        },
{
    match v {
        Value::Array(items) => Records::Many(items),
        other => Records::One(other),
    }
}

/// The records that a stored text holds: none when it is blank, else the
/// array that it parses to, or the message of why it does not parse.
pub open spec fn stored_records(stored: Seq<char>, path: Seq<char>) -> Result<
    Seq<Value>,
    Seq<char>,
> {
    if is_blank_text(stored) {
        Ok(Seq::empty())
    } else {
        match json_array_parse(stored) {
            Ok(v) => Ok(v),
            Err(m) => Err("Error parsing JSON "@ + path + ": "@ + m),
        }
    }
}

/// The records of the stored text followed by the new ones, or the message
/// of why the text does not parse.
pub open spec fn merged_records(stored: Seq<char>, path: Seq<char>, incoming: Value) -> Result<
    Seq<Value>,
    Seq<char>,
> {
    match stored_records(stored, path) {
        Err(m) => Err(m),
        Ok(v) => Ok(
            v + match json_array_elements(incoming) {
                Some(items) => items,
                None => seq![incoming],
            },
        ),
    }
}

/// The text to store after appending `incoming` to the records that the
/// text `stored` of the file at `path` holds.
pub open spec fn merged_text(stored: Seq<char>, path: Seq<char>, incoming: Value) -> Result<
    Seq<char>,
    Seq<char>,
> {
    match merged_records(stored, path, incoming) {
        Err(m) => Err(m),
        Ok(v) => match json_array_pretty(v) {
            Ok(t) => Ok(t),
            Err(m) => Err("Error serializing JSON: "@ + m),
        },
    }
}

/// The stored records followed by the new ones, from the outcome of reading
/// the stored records: a read error becomes the message that names the file.
pub fn merge_records<T>(stored: Result<Vec<T>, String>, path: &str, incoming: Records<T>) -> (res:
    Result<Vec<T>, String>)
    ensures
        match stored {
            Ok(v) => res is Ok && res->Ok_0@ == v@ + records_items(incoming),
            Err(m) => res is Err && res->Err_0@ == "Error parsing JSON "@ + path@ + ": "@ + m@,
        },
        stored matches Ok(v) ==> (incoming matches Records::Many(items) ==> res is Ok
            && res->Ok_0@ == v@ + items@),
        stored matches Ok(v) ==> (incoming matches Records::One(x) ==> res is Ok && res->Ok_0@
            == v@.push(x)),
{
    match stored {
        Ok(v) => Ok(append_records(v, incoming)),
        Err(m) => {
            let mut msg = concat("Error parsing JSON ", path);
            msg.append(": ");
            msg.append(m.as_str());
            Err(msg)
        },
    }
}

/// Appending keeps the stored records first and in their order, and adds
/// the new ones after them in their own order: the elements of an array
/// one by one, any other value as a single record. A blank file holds no
/// records; any other file holds the array it parses to, or is refused
/// with a message naming it.
pub proof fn lemma_merged_records(stored: Seq<char>, path: Seq<char>, incoming: Value)
    ensures
        is_blank_text(stored) ==> stored_records(stored, path) == Ok::<Seq<Value>, Seq<char>>(
            Seq::empty(),
        ),
        !is_blank_text(stored) ==> (json_array_parse(stored) matches Ok(v) ==> stored_records(
            stored,
            path,
        ) == Ok::<Seq<Value>, Seq<char>>(v)),
        !is_blank_text(stored) ==> (json_array_parse(stored) matches Err(m) ==> stored_records(
            stored,
            path,
        ) == Err::<Seq<Value>, Seq<char>>("Error parsing JSON "@ + path + ": "@ + m)),
        stored_records(stored, path) matches Ok(v) ==> (json_array_elements(incoming) matches Some(
            items,
        ) ==> merged_records(stored, path, incoming) == Ok::<Seq<Value>, Seq<char>>(v + items)),
        stored_records(stored, path) matches Ok(v) ==> (json_array_elements(incoming) is None
            ==> merged_records(stored, path, incoming) == Ok::<Seq<Value>, Seq<char>>(
            v.push(incoming),
        )),
        stored_records(stored, path) matches Ok(v) ==> ({
            let merged = merged_records(stored, path, incoming)->Ok_0;
            &&& merged.len() >= v.len()
            &&& forall|i: int| 0 <= i < v.len() ==> #[trigger] merged[i] == v[i]
        }),
        stored_records(stored, path) matches Err(m) ==> merged_records(stored, path, incoming)
            == Err::<Seq<Value>, Seq<char>>(m),
{
    if let Ok(v) = stored_records(stored, path) {
        assert(v + seq![incoming] =~= v.push(incoming));
    }
}

/// The new text of the file at `path` that held `stored`, once `incoming`
/// is appended to its records: an array's elements are appended one by
/// one, any other value as one record.
pub fn merge_json_text(stored: &str, path: &str, incoming: Value) -> (res: Result<String, String>)
    ensures
        match merged_text(stored@, path@, incoming) {
            Ok(t) => res is Ok && res->Ok_0@ == t,
            Err(m) => res is Err && res->Err_0@ == m,
        },
        !is_blank_text(stored@) && json_array_parse(stored@) is Err ==> res is Err
            && res->Err_0@ == "Error parsing JSON "@ + path@ + ": "@ + json_array_parse(
            stored@,
        )->Err_0,
        (is_blank_text(stored@) || json_array_parse(stored@) is Ok) ==> ({
            let v = if is_blank_text(stored@) {
                Seq::<Value>::empty()
            } else {
                json_array_parse(stored@)->Ok_0
            };
            let all = match json_array_elements(incoming) {
                Some(items) => v + items,
                None => v.push(incoming),
            };
            match json_array_pretty(all) {
                Ok(t) => res is Ok && res->Ok_0@ == t,
                Err(m) => res is Err && res->Err_0@ == "Error serializing JSON: "@ + m,
            }
        }),
{
    proof {
        lemma_merged_records(stored@, path@, incoming);
    }
    let parsed: Result<Vec<Value>, String> = if is_blank(stored) {
        Ok(Vec::new())
    } else {
        parse_json_array(stored)
    };
    let ghost incoming_items = match json_array_elements(incoming) {
        Some(items) => items,
        None => seq![incoming],
    };
    let records = json_records(incoming);
    assert(records_items(records) == incoming_items);
    let data = match merge_records(parsed, path, records) {
        Ok(d) => d,
        Err(m) => return Err(m),
    };
    match pretty_json_array(&data) {
        Ok(t) => Ok(t),
        Err(m) => Err(concat("Error serializing JSON: ", m.as_str())),
    }
}

} // verus!
