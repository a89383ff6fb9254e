use vstd::prelude::*;
use crate::decode::{
    decode_devices, decode_devices_spec, decode_pets, decode_pets_spec, device_records_view,
    devices_view, pet_records_view, pets_view, DeviceRecordView, PetRecordView,
};
use crate::device::{Device, DeviceView};
use crate::error::Error;
use crate::json::{
    device_records_of, extract_device_records, extract_pet_records, pet_records_of,
};
use crate::pet::{Pet, PetView};

verus! {

/// Classify the status of an authenticated resource fetch: 200 passes the
/// body on for decoding, 401 means the cached token has gone stale, and
/// everything else is unexpected.
pub fn classify_fetch_status(status: u16) -> (r: Result<(), Error>)
    ensures
        status == 200 <==> r is Ok,
        status == 401 ==> r == Err::<(), Error>(Error::TokenExpired),
        status != 200 && status != 401 ==> r == Err::<(), Error>(Error::UnexpectedResponse),
{
    if status == 200 {
        Ok(())
    } else if status == 401 {
        Err(Error::TokenExpired)
    } else {
        Err(Error::UnexpectedResponse)
    }
}

/// Every failure of a device batch decode is either a malformed shape or an
/// unknown category.
proof fn lemma_decode_devices_err_kinds(rs: Seq<DeviceRecordView>)
    ensures
        match decode_devices_spec(rs) {
            Ok(_) => true,
            Err(e) => e == Error::UnexpectedResponseShape || e == Error::UnknownDeviceCategory,
        },
    decreases rs.len(),
{
    if rs.len() > 0 {
        lemma_decode_devices_err_kinds(rs.drop_first());
    }
}

/// Every failure of a pet batch decode is a malformed shape.
proof fn lemma_decode_pets_err_kind(rs: Seq<PetRecordView>)
    ensures
        match decode_pets_spec(rs) {
            Ok(_) => true,
            Err(e) => e == Error::UnexpectedResponseShape,
        },
    decreases rs.len(),
{
    if rs.len() > 0 {
        lemma_decode_pets_err_kind(rs.drop_first());
    }
}

/// What a device list body stands for: the extracted entries of its text,
/// decoded all or nothing.
pub open spec fn devices_of_body(body: Seq<char>) -> Result<Seq<DeviceView>, Error> {
    match device_records_of(body) {
        Err(e) => Err(e),
        Ok(rs) => decode_devices_spec(rs),
    }
}

/// What a pet list body stands for: the extracted entries of its text,
/// decoded all or nothing.
pub open spec fn pets_of_body(body: Seq<char>) -> Result<Seq<PetView>, Error> {
    match pet_records_of(body) {
        Err(e) => Err(e),
        Ok(rs) => decode_pets_spec(rs),
    }
}

/// Turn a device list response body into devices: take the JSON envelope
/// apart, then decode the entries all or nothing. The result is exactly
/// what the body's text stands for; every failure is the malformed-shape
/// error or, for an unrecognized product id, the unknown-category error.
pub fn parse_devices_body(body: &str) -> (r: Result<Vec<Device>, Error>)
    ensures
        match r {
            Ok(ds) => devices_of_body(body@) == Ok::<_, Error>(devices_view(ds@)),
            Err(e) => devices_of_body(body@) == Err::<Seq<DeviceView>, _>(e) && (e
                == Error::UnexpectedResponseShape || e == Error::UnknownDeviceCategory),
        },
{
    let records = match extract_device_records(body) {
        Ok(rs) => rs,
        Err(e) => {
            return Err(e);
        },
    };
    proof {
        lemma_decode_devices_err_kinds(device_records_view(records@));
    }
    decode_devices(&records)
}

/// Turn a pet list response body into pets: take the JSON envelope apart,
/// then decode the entries all or nothing. The result is exactly what the
/// body's text stands for; every failure is the malformed-shape error.
pub fn parse_pets_body(body: &str) -> (r: Result<Vec<Pet>, Error>)
    ensures
        match r {
            Ok(ps) => pets_of_body(body@) == Ok::<_, Error>(pets_view(ps@)),
            Err(e) => pets_of_body(body@) == Err::<Seq<PetView>, _>(e) && e
                == Error::UnexpectedResponseShape,
        },
{
    let records = match extract_pet_records(body) {
        Ok(rs) => rs,
        Err(e) => {
            return Err(e);
        },
    };
    proof {
        lemma_decode_pets_err_kind(pet_records_view(records@));
    }
    decode_pets(&records)
}

} // verus!
