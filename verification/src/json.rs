use vstd::prelude::*;
use crate::decode::{
    device_records_view, pet_records_view, DeviceRecord, DeviceRecordView, PetRecord,
    PetRecordView,
};
use crate::error::Error;
use crate::voltage::{parse_voltage, parse_voltage_spec};

verus! {

#[verifier::external_type_specification]
#[verifier::external_body]
pub struct ExValue(serde_json::Value);

// A serde_json value is opaque to the verifier. To state what the accessors
// below return, each value is linked to the text serde_json would serialize
// it to ("its canonical text"): that text determines the value's kind and
// contents (objects are key-sorted maps, duplicate keys cannot arise), so
// every accessor's outcome is a function of it, and of the input text alone
// for the parser. The names below name those functions.

/// The canonical text of a parsed JSON value.
pub uninterp spec fn json_text_of(v: serde_json::Value) -> Seq<char>;

/// What parsing JSON text yields: the canonical text of its document, or
/// nothing when the text is not JSON.
pub uninterp spec fn json_of(s: Seq<char>) -> Option<Seq<char>>;

/// The canonical text of the value under a key of an object, or nothing
/// when the value is no object or has no such key.
pub uninterp spec fn get_of(obj: Seq<char>, key: Seq<char>) -> Option<Seq<char>>;

/// The canonical texts of the elements of an array, in order, or nothing
/// when the value is no array.
pub uninterp spec fn elements_of(arr: Seq<char>) -> Option<Seq<Seq<char>>>;

/// The text of a string value, or nothing when the value is no string.
pub uninterp spec fn str_of(text: Seq<char>) -> Option<Seq<char>>;

/// The value of an integer that fits a u64, or nothing otherwise.
pub uninterp spec fn u64_of(text: Seq<char>) -> Option<u64>;

/// The value of a boolean, or nothing when the value is no boolean.
pub uninterp spec fn bool_of(text: Seq<char>) -> Option<bool>;

/// Whether the value is null.
pub uninterp spec fn is_null_text(text: Seq<char>) -> bool;

/// The decimal (or exponent) text of a number value, or nothing when the
/// value is no number.
pub uninterp spec fn number_text_of(text: Seq<char>) -> Option<Seq<char>>;

/// Relies on serde_json::from_str::<Value>: parses JSON text, or fails on
/// text that is not JSON; the outcome depends on the text alone.
#[verifier::external_body]
fn json_from_str(s: &str) -> (r: Option<serde_json::Value>)
    ensures
        match r {
            Some(v) => json_of(s@) == Some(json_text_of(v)),
            None => json_of(s@) is None,
        },
{
    serde_json::from_str(s).ok()
}

/// Relies on serde_json::Value::get: the value under a key of an object,
/// or None when the value is no object or has no such key.
#[verifier::external_body]
fn json_get<'a>(v: &'a serde_json::Value, key: &str) -> (r: Option<&'a serde_json::Value>)
    ensures
        match r {
            Some(w) => get_of(json_text_of(*v), key@) == Some(json_text_of(*w)),
            None => get_of(json_text_of(*v), key@) is None,
        },
{
    v.get(key)
}

/// Relies on serde_json::Value::as_array: the elements of an array value,
/// in order.
#[verifier::external_body]
fn json_as_array<'a>(v: &'a serde_json::Value) -> (r: Option<&'a Vec<serde_json::Value>>)
    ensures
        match r {
            Some(a) => elements_of(json_text_of(*v)) == Some(
                a@.map_values(|e: serde_json::Value| json_text_of(e)),
            ),
            None => elements_of(json_text_of(*v)) is None,
        },
{
    v.as_array()
}

/// Relies on serde_json::Value::as_str: the text of a string value.
#[verifier::external_body]
fn json_as_string(v: &serde_json::Value) -> (r: Option<String>)
    ensures
        match r {
            Some(s) => str_of(json_text_of(*v)) == Some(s@),
            None => str_of(json_text_of(*v)) is None,
        },
{
    match v.as_str() {
        Some(s) => Some(s.to_owned()),
        None => None,
    }
}

/// Relies on serde_json::Value::as_u64: Some exactly when the value is an
/// integer that fits in a u64.
#[verifier::external_body]
fn json_as_u64(v: &serde_json::Value) -> (r: Option<u64>)
    ensures
        r == u64_of(json_text_of(*v)),
{
    v.as_u64()
}

/// Relies on serde_json::Value::as_bool: the value of a boolean.
#[verifier::external_body]
fn json_as_bool(v: &serde_json::Value) -> (r: Option<bool>)
    ensures
        r == bool_of(json_text_of(*v)),
{
    v.as_bool()
}

/// Relies on serde_json::Value::is_null.
#[verifier::external_body]
fn json_is_null(v: &serde_json::Value) -> (r: bool)
    ensures
        r == is_null_text(json_text_of(*v)),
{
    v.is_null()
}

/// Relies on the Display of serde_json::Number: a JSON number renders as
/// decimal (or exponent) text.
#[verifier::external_body]
fn json_number_text(v: &serde_json::Value) -> (r: Option<String>)
    ensures
        match r {
            Some(t) => number_text_of(json_text_of(*v)) == Some(t@),
            None => number_text_of(json_text_of(*v)) is None,
        },
{
    match v {
        serde_json::Value::Number(n) => Some(n.to_string()),
        _ => None,
    }
}

/// What one device entry extracts to: `{name, product_id, status: {online,
/// battery?}}`, with the battery reading parsed from its number text. Every
/// departure from that shape is the malformed-shape error.
pub open spec fn device_record_of_text(e: Seq<char>) -> Result<DeviceRecordView, Error> {
    match get_of(e, "name"@) {
        None => Err(Error::UnexpectedResponseShape),
        Some(nv) => match str_of(nv) {
            None => Err(Error::UnexpectedResponseShape),
            Some(name) => match get_of(e, "product_id"@) {
                None => Err(Error::UnexpectedResponseShape),
                Some(pv) => match u64_of(pv) {
                    None => Err(Error::UnexpectedResponseShape),
                    Some(pid) => if pid > 255 {
                        Err(Error::UnexpectedResponseShape)
                    } else {
                        match get_of(e, "status"@) {
                            None => Err(Error::UnexpectedResponseShape),
                            Some(st) => match get_of(st, "online"@) {
                                None => Err(Error::UnexpectedResponseShape),
                                Some(ov) => match bool_of(ov) {
                                    None => Err(Error::UnexpectedResponseShape),
                                    Some(online) => match get_of(st, "battery"@) {
                                        None => Ok(
                                            DeviceRecordView {
                                                name,
                                                product_id: pid as u8,
                                                online,
                                                battery_voltage: None,
                                            },
                                        ),
                                        Some(bv) => if is_null_text(bv) {
                                            Ok(
                                                DeviceRecordView {
                                                    name,
                                                    product_id: pid as u8,
                                                    online,
                                                    battery_voltage: None,
                                                },
                                            )
                                        } else {
                                            match number_text_of(bv) {
                                                None => Err(Error::UnexpectedResponseShape),
                                                Some(txt) => match parse_voltage_spec(txt) {
                                                    None => Err(Error::UnexpectedResponseShape),
                                                    Some(dmv) => Ok(
                                                        DeviceRecordView {
                                                            name,
                                                            product_id: pid as u8,
                                                            online,
                                                            battery_voltage: Some(dmv as u32),
                                                        },
                                                    ),
                                                },
                                            }
                                        },
                                    },
                                },
                            },
                        }
                    },
                },
            },
        },
    }
}

/// Extracting a batch of device entries: entry by entry in order, aborting
/// at the first malformed one.
pub open spec fn device_records_of_texts(es: Seq<Seq<char>>) -> Result<Seq<DeviceRecordView>, Error>
    decreases es.len(),
{
    if es.len() == 0 {
        Ok(Seq::empty())
    } else {
        match device_record_of_text(es[0]) {
            Err(e) => Err(e),
            Ok(r0) => match device_records_of_texts(es.drop_first()) {
                Ok(rest) => Ok(seq![r0] + rest),
                Err(e) => Err(e),
            },
        }
    }
}

/// What the device list body extracts to: the entries of its `data` array,
/// all or nothing.
pub open spec fn device_records_of(body: Seq<char>) -> Result<Seq<DeviceRecordView>, Error> {
    match json_of(body) {
        None => Err(Error::UnexpectedResponseShape),
        Some(doc) => match get_of(doc, "data"@) {
            None => Err(Error::UnexpectedResponseShape),
            Some(data) => match elements_of(data) {
                None => Err(Error::UnexpectedResponseShape),
                Some(es) => device_records_of_texts(es),
            },
        },
    }
}

proof fn lemma_device_entries_all_ok(es: Seq<Seq<char>>, rs: Seq<DeviceRecordView>)
    requires
        es.len() == rs.len(),
        forall|i: int|
            0 <= i < es.len() ==> device_record_of_text(#[trigger] es[i]) == Ok::<_, Error>(rs[i]),
    ensures
        device_records_of_texts(es) == Ok::<_, Error>(rs),
    decreases es.len(),
{
    if es.len() > 0 {
        assert forall|i: int|
            0 <= i < es.drop_first().len() implies device_record_of_text(
            #[trigger] es.drop_first()[i],
        ) == Ok::<_, Error>(rs.drop_first()[i]) by {
            assert(es.drop_first()[i] == es[i + 1]);
        }
        lemma_device_entries_all_ok(es.drop_first(), rs.drop_first());
        assert(seq![rs[0]] + rs.drop_first() =~= rs);
    } else {
        assert(rs =~= Seq::<DeviceRecordView>::empty());
    }
}

proof fn lemma_device_entries_first_err(es: Seq<Seq<char>>, j: int, e: Error)
    requires
        0 <= j < es.len(),
        device_record_of_text(es[j]) == Err::<DeviceRecordView, _>(e),
        forall|k: int| 0 <= k < j ==> device_record_of_text(#[trigger] es[k]) is Ok,
    ensures
        device_records_of_texts(es) == Err::<Seq<DeviceRecordView>, _>(e),
    decreases j,
{
    if j > 0 {
        lemma_device_entries_first_err(es.drop_first(), j - 1, e);
    }
}

/// Take the device list body apart: `{data: [{name, product_id, status:
/// {battery?, online}}]}`. The result is exactly what the body's text
/// stands for under the boundary names above.
pub fn extract_device_records(body: &str) -> (r: Result<Vec<DeviceRecord>, Error>)
    ensures
        match r {
            Ok(rs) => device_records_of(body@) == Ok::<_, Error>(device_records_view(rs@)),
            Err(e) => device_records_of(body@) == Err::<Seq<DeviceRecordView>, _>(e) && e
                == Error::UnexpectedResponseShape,
        },
{
    let parsed = match json_from_str(body) {
        Some(v) => v,
        None => {
            return Err(Error::UnexpectedResponseShape);
        },
    };
    let data = match json_get(&parsed, "data") {
        Some(d) => d,
        None => {
            return Err(Error::UnexpectedResponseShape);
        },
    };
    let arr = match json_as_array(data) {
        Some(a) => a,
        None => {
            return Err(Error::UnexpectedResponseShape);
        },
    };
    let ghost es = arr@.map_values(|e: serde_json::Value| json_text_of(e));
    proof {
        assert(device_records_of(body@) == device_records_of_texts(es));
    }
    let mut records: Vec<DeviceRecord> = Vec::new();
    let n = arr.len();
    for i in 0..n
        invariant
            n == arr@.len(),
            es == arr@.map_values(|e: serde_json::Value| json_text_of(e)),
            es.len() == n,
            device_records_of(body@) == device_records_of_texts(es),
            records@.len() == i,
            forall|k: int|
                0 <= k < i ==> device_record_of_text(#[trigger] es[k]) == Ok::<_, Error>(
                    records@[k]@,
                ),
    {
        let item = &arr[i];
        proof {
            assert(json_text_of(*item) == es[i as int]);
        }
        let name = match json_get(item, "name") {
            Some(v) => match json_as_string(v) {
                Some(s) => s,
                None => {
                    proof {
                        lemma_device_entries_first_err(es, i as int, Error::UnexpectedResponseShape);
                    }
                    return Err(Error::UnexpectedResponseShape);
                },
            },
            None => {
                proof {
                    lemma_device_entries_first_err(es, i as int, Error::UnexpectedResponseShape);
                }
                return Err(Error::UnexpectedResponseShape);
            },
        };
        let pid = match json_get(item, "product_id") {
            Some(v) => match json_as_u64(v) {
                Some(x) => x,
                None => {
                    proof {
                        lemma_device_entries_first_err(es, i as int, Error::UnexpectedResponseShape);
                    }
                    return Err(Error::UnexpectedResponseShape);
                },
            },
            None => {
                proof {
                    lemma_device_entries_first_err(es, i as int, Error::UnexpectedResponseShape);
                }
                return Err(Error::UnexpectedResponseShape);
            },
        };
        if pid > 255 {
            proof {
                lemma_device_entries_first_err(es, i as int, Error::UnexpectedResponseShape);
            }
            return Err(Error::UnexpectedResponseShape);
        }
        let status = match json_get(item, "status") {
            Some(v) => v,
            None => {
                proof {
                    lemma_device_entries_first_err(es, i as int, Error::UnexpectedResponseShape);
                }
                return Err(Error::UnexpectedResponseShape);
            },
        };
        let online = match json_get(status, "online") {
            Some(v) => match json_as_bool(v) {
                Some(b) => b,
                None => {
                    proof {
                        lemma_device_entries_first_err(es, i as int, Error::UnexpectedResponseShape);
                    }
                    return Err(Error::UnexpectedResponseShape);
                },
            },
            None => {
                proof {
                    lemma_device_entries_first_err(es, i as int, Error::UnexpectedResponseShape);
                }
                return Err(Error::UnexpectedResponseShape);
            },
        };
        let battery_voltage: Option<u32> = match json_get(status, "battery") {
            None => None,
            Some(b) => {
                if json_is_null(b) {
                    None
                } else {
                    let text = match json_number_text(b) {
                        Some(t) => t,
                        None => {
                            proof {
                                lemma_device_entries_first_err(
                                    es,
                                    i as int,
                                    Error::UnexpectedResponseShape,
                                );
                            }
                            return Err(Error::UnexpectedResponseShape);
                        },
                    };
                    match parse_voltage(text.as_str()) {
                        Some(v) => Some(v),
                        None => {
                            proof {
                                lemma_device_entries_first_err(
                                    es,
                                    i as int,
                                    Error::UnexpectedResponseShape,
                                );
                            }
                            return Err(Error::UnexpectedResponseShape);
                        },
                    }
                }
            },
        };
        let rec = DeviceRecord { name, product_id: pid as u8, online, battery_voltage };
        proof {
            assert(device_record_of_text(es[i as int]) == Ok::<_, Error>(rec@));
        }
        records.push(rec);
    }
    proof {
        lemma_device_entries_all_ok(es, device_records_view(records@));
    }
    Ok(records)
}

/// What one pet entry extracts to: `{name, position: {where, since}}`. The
/// timestamp text is kept as it stands; the decoder parses it later.
pub open spec fn pet_record_of_text(e: Seq<char>) -> Result<PetRecordView, Error> {
    match get_of(e, "name"@) {
        None => Err(Error::UnexpectedResponseShape),
        Some(nv) => match str_of(nv) {
            None => Err(Error::UnexpectedResponseShape),
            Some(name) => match get_of(e, "position"@) {
                None => Err(Error::UnexpectedResponseShape),
                Some(pos) => match get_of(pos, "where"@) {
                    None => Err(Error::UnexpectedResponseShape),
                    Some(wv) => match u64_of(wv) {
                        None => Err(Error::UnexpectedResponseShape),
                        Some(w) => if w > 255 {
                            Err(Error::UnexpectedResponseShape)
                        } else {
                            match get_of(pos, "since"@) {
                                None => Err(Error::UnexpectedResponseShape),
                                Some(sv) => match str_of(sv) {
                                    None => Err(Error::UnexpectedResponseShape),
                                    Some(since) => Ok(
                                        PetRecordView { name, position: w as u8, since },
                                    ),
                                },
                            }
                        },
                    },
                },
            },
        },
    }
}

/// Extracting a batch of pet entries: entry by entry in order, aborting at
/// the first malformed one.
pub open spec fn pet_records_of_texts(es: Seq<Seq<char>>) -> Result<Seq<PetRecordView>, Error>
    decreases es.len(),
{
    if es.len() == 0 {
        Ok(Seq::empty())
    } else {
        match pet_record_of_text(es[0]) {
            Err(e) => Err(e),
            Ok(r0) => match pet_records_of_texts(es.drop_first()) {
                Ok(rest) => Ok(seq![r0] + rest),
                Err(e) => Err(e),
            },
        }
    }
}

/// What the pet list body extracts to: the entries of its `data` array,
/// all or nothing.
pub open spec fn pet_records_of(body: Seq<char>) -> Result<Seq<PetRecordView>, Error> {
    match json_of(body) {
        None => Err(Error::UnexpectedResponseShape),
        Some(doc) => match get_of(doc, "data"@) {
            None => Err(Error::UnexpectedResponseShape),
            Some(data) => match elements_of(data) {
                None => Err(Error::UnexpectedResponseShape),
                Some(es) => pet_records_of_texts(es),
            },
        },
    }
}

proof fn lemma_pet_entries_all_ok(es: Seq<Seq<char>>, rs: Seq<PetRecordView>)
    requires
        es.len() == rs.len(),
        forall|i: int|
            0 <= i < es.len() ==> pet_record_of_text(#[trigger] es[i]) == Ok::<_, Error>(rs[i]),
    ensures
        pet_records_of_texts(es) == Ok::<_, Error>(rs),
    decreases es.len(),
{
    if es.len() > 0 {
        assert forall|i: int|
            0 <= i < es.drop_first().len() implies pet_record_of_text(
            #[trigger] es.drop_first()[i],
        ) == Ok::<_, Error>(rs.drop_first()[i]) by {
            assert(es.drop_first()[i] == es[i + 1]);
        }
        lemma_pet_entries_all_ok(es.drop_first(), rs.drop_first());
        assert(seq![rs[0]] + rs.drop_first() =~= rs);
    } else {
        assert(rs =~= Seq::<PetRecordView>::empty());
    }
}

proof fn lemma_pet_entries_first_err(es: Seq<Seq<char>>, j: int, e: Error)
    requires
        0 <= j < es.len(),
        pet_record_of_text(es[j]) == Err::<PetRecordView, _>(e),
        forall|k: int| 0 <= k < j ==> pet_record_of_text(#[trigger] es[k]) is Ok,
    ensures
        pet_records_of_texts(es) == Err::<Seq<PetRecordView>, _>(e),
    decreases j,
{
    if j > 0 {
        lemma_pet_entries_first_err(es.drop_first(), j - 1, e);
    }
}

/// Take the pet list body apart: `{data: [{name, position: {where,
/// since}}]}`. The result is exactly what the body's text stands for under
/// the boundary names above.
pub fn extract_pet_records(body: &str) -> (r: Result<Vec<PetRecord>, Error>)
    ensures
        match r {
            Ok(rs) => pet_records_of(body@) == Ok::<_, Error>(pet_records_view(rs@)),
            Err(e) => pet_records_of(body@) == Err::<Seq<PetRecordView>, _>(e) && e
                == Error::UnexpectedResponseShape,
        },
{
    let parsed = match json_from_str(body) {
        Some(v) => v,
        None => {
            return Err(Error::UnexpectedResponseShape);
        },
    };
    let data = match json_get(&parsed, "data") {
        Some(d) => d,
        None => {
            return Err(Error::UnexpectedResponseShape);
        },
    };
    let arr = match json_as_array(data) {
        Some(a) => a,
        None => {
            return Err(Error::UnexpectedResponseShape);
        },
    };
    let ghost es = arr@.map_values(|e: serde_json::Value| json_text_of(e));
    proof {
        assert(pet_records_of(body@) == pet_records_of_texts(es));
    }
    let mut records: Vec<PetRecord> = Vec::new();
    let n = arr.len();
    for i in 0..n
        invariant
            n == arr@.len(),
            es == arr@.map_values(|e: serde_json::Value| json_text_of(e)),
            es.len() == n,
            pet_records_of(body@) == pet_records_of_texts(es),
            records@.len() == i,
            forall|k: int|
                0 <= k < i ==> pet_record_of_text(#[trigger] es[k]) == Ok::<_, Error>(
                    records@[k]@,
                ),
    {
        let item = &arr[i];
        proof {
            assert(json_text_of(*item) == es[i as int]);
        }
        let name = match json_get(item, "name") {
            Some(v) => match json_as_string(v) {
                Some(s) => s,
                None => {
                    proof {
                        lemma_pet_entries_first_err(es, i as int, Error::UnexpectedResponseShape);
                    }
                    return Err(Error::UnexpectedResponseShape);
                },
            },
            None => {
                proof {
                    lemma_pet_entries_first_err(es, i as int, Error::UnexpectedResponseShape);
                }
                return Err(Error::UnexpectedResponseShape);
            },
        };
        let position_value = match json_get(item, "position") {
            Some(v) => v,
            None => {
                proof {
                    lemma_pet_entries_first_err(es, i as int, Error::UnexpectedResponseShape);
                }
                return Err(Error::UnexpectedResponseShape);
            },
        };
        let where_value = match json_get(position_value, "where") {
            Some(v) => match json_as_u64(v) {
                Some(x) => x,
                None => {
                    proof {
                        lemma_pet_entries_first_err(es, i as int, Error::UnexpectedResponseShape);
                    }
                    return Err(Error::UnexpectedResponseShape);
                },
            },
            None => {
                proof {
                    lemma_pet_entries_first_err(es, i as int, Error::UnexpectedResponseShape);
                }
                return Err(Error::UnexpectedResponseShape);
            },
        };
        if where_value > 255 {
            proof {
                lemma_pet_entries_first_err(es, i as int, Error::UnexpectedResponseShape);
            }
            return Err(Error::UnexpectedResponseShape);
        }
        let since = match json_get(position_value, "since") {
            Some(v) => match json_as_string(v) {
                Some(s) => s,
                None => {
                    proof {
                        lemma_pet_entries_first_err(es, i as int, Error::UnexpectedResponseShape);
                    }
                    return Err(Error::UnexpectedResponseShape);
                },
            },
            None => {
                proof {
                    lemma_pet_entries_first_err(es, i as int, Error::UnexpectedResponseShape);
                }
                return Err(Error::UnexpectedResponseShape);
            },
        };
        let rec = PetRecord { name, position: where_value as u8, since };
        proof {
            assert(pet_record_of_text(es[i as int]) == Ok::<_, Error>(rec@));
        }
        records.push(rec);
    }
    proof {
        lemma_pet_entries_all_ok(es, pet_records_view(records@));
    }
    Ok(records)
}

/// What the login response body holds: the token under `{data: {token}}`,
/// or nothing when the body misses any part of that shape.
pub open spec fn token_of(body: Seq<char>) -> Option<Seq<char>> {
    match json_of(body) {
        None => None,
        Some(doc) => match get_of(doc, "data"@) {
            None => None,
            Some(data) => match get_of(data, "token"@) {
                None => None,
                Some(t) => str_of(t),
            },
        },
    }
}

/// Pull the token out of a login response body shaped `{data: {token}}`.
pub fn extract_login_token(body: &str) -> (r: Option<String>)
    ensures
        match r {
            Some(t) => token_of(body@) == Some(t@),
            None => token_of(body@) is None,
        },
{
    let parsed = match json_from_str(body) {
        Some(v) => v,
        None => {
            return None;
        },
    };
    let data = match json_get(&parsed, "data") {
        Some(d) => d,
        None => {
            return None;
        },
    };
    match json_get(data, "token") {
        Some(t) => json_as_string(t),
        None => None,
    }
}

} // verus!
