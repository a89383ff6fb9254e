use vstd::prelude::*;
use crate::device::{Device, DeviceView};
use crate::error::Error;
use crate::flap::{Flap, FlapView};
use crate::hub::{Hub, HubView};
use crate::pet::{Pet, PetView};
use crate::timestamp::{format_rfc3339, parse_rfc3339, rfc3339_epoch_of};

verus! {

// The typed payload of the device and pet list endpoints, after the JSON
// envelope has been taken apart but before the per-entry rules have been
// applied: the decoders below turn these records into entities, all or
// nothing.

/// One entry of the device list payload.
#[derive(Debug, PartialEq)]
pub struct DeviceRecord {
    pub name: String,
    /// Wire discriminator: 1 is a hub, 3 is a flap.
    pub product_id: u8,
    pub online: bool,
    /// Pack voltage in tenths of a millivolt; flaps must carry it.
    pub battery_voltage: Option<u32>,
}

/// The mathematical content of a device entry.
pub ghost struct DeviceRecordView {
    pub name: Seq<char>,
    pub product_id: u8,
    pub online: bool,
    pub battery_voltage: Option<u32>,
}

impl View for DeviceRecord {
    type V = DeviceRecordView;

    open spec fn view(&self) -> DeviceRecordView {
        DeviceRecordView {
            name: self.name@,
            product_id: self.product_id,
            online: self.online,
            battery_voltage: self.battery_voltage,
        }
    }
}

/// One entry of the pet list payload.
#[derive(Debug, PartialEq)]
pub struct PetRecord {
    pub name: String,
    /// Wire position: 1 is inside, 2 is outside.
    pub position: u8,
    /// RFC 3339 timestamp text, still unparsed.
    pub since: String,
}

/// The mathematical content of a pet entry.
pub ghost struct PetRecordView {
    pub name: Seq<char>,
    pub position: u8,
    pub since: Seq<char>,
}

impl View for PetRecord {
    type V = PetRecordView;

    open spec fn view(&self) -> PetRecordView {
        PetRecordView { name: self.name@, position: self.position, since: self.since@ }
    }
}

pub open spec fn device_records_view(rs: Seq<DeviceRecord>) -> Seq<DeviceRecordView> {
    rs.map_values(|r: DeviceRecord| r@)
}

pub open spec fn devices_view(ds: Seq<Device>) -> Seq<DeviceView> {
    ds.map_values(|d: Device| d@)
}

pub open spec fn pet_records_view(rs: Seq<PetRecord>) -> Seq<PetRecordView> {
    rs.map_values(|r: PetRecord| r@)
}

pub open spec fn pets_view(ps: Seq<Pet>) -> Seq<PetView> {
    ps.map_values(|p: Pet| p@)
}

/// A device entry decodes when its category is known and, for a flap, the
/// battery reading is present.
pub open spec fn device_record_valid(r: DeviceRecordView) -> bool {
    r.product_id == 1 || (r.product_id == 3 && r.battery_voltage is Some)
}

/// The entity a well-formed device entry stands for.
pub open spec fn device_of_record(r: DeviceRecordView) -> DeviceView
    recommends
        device_record_valid(r),
{
    if r.product_id == 1 {
        DeviceView::Hub(HubView { name: r.name, online: r.online })
    } else {
        DeviceView::Flap(
            FlapView {
                name: r.name,
                online: r.online,
                battery_voltage: r.battery_voltage->0,
            },
        )
    }
}

/// Why a device entry fails to decode: an unrecognized product id is an
/// unknown category; a flap without a battery reading is a malformed shape.
pub open spec fn device_record_err(r: DeviceRecordView) -> Error
    recommends
        !device_record_valid(r),
{
    if r.product_id == 1 || r.product_id == 3 {
        Error::UnexpectedResponseShape
    } else {
        Error::UnknownDeviceCategory
    }
}

/// Decoding a batch of device entries: entry by entry in order, aborting the
/// whole batch at the first entry that does not decode.
pub open spec fn decode_devices_spec(rs: Seq<DeviceRecordView>) -> Result<Seq<DeviceView>, Error>
    decreases rs.len(),
{
    if rs.len() == 0 {
        Ok(Seq::empty())
    } else if !device_record_valid(rs[0]) {
        Err(device_record_err(rs[0]))
    } else {
        match decode_devices_spec(rs.drop_first()) {
            Ok(rest) => Ok(seq![device_of_record(rs[0])] + rest),
            Err(e) => Err(e),
        }
    }
}

/// A batch where every entry decodes gives exactly the entities of its
/// entries, in order.
pub proof fn lemma_decode_devices_all_valid(rs: Seq<DeviceRecordView>)
    requires
        forall|i: int| 0 <= i < rs.len() ==> device_record_valid(#[trigger] rs[i]),
    ensures
        decode_devices_spec(rs) == Ok::<_, Error>(
            rs.map_values(|r: DeviceRecordView| device_of_record(r)),
        ),
    decreases rs.len(),
{
    let f = |r: DeviceRecordView| device_of_record(r);
    if rs.len() == 0 {
        assert(rs.map_values(f) =~= Seq::<DeviceView>::empty());
    } else {
        lemma_decode_devices_all_valid(rs.drop_first());
        assert(rs.drop_first().map_values(f) =~= rs.map_values(f).drop_first());
        assert(seq![f(rs[0])] + rs.map_values(f).drop_first() =~= rs.map_values(f));
    }
}

/// A batch whose first non-decoding entry sits at `j` fails with that
/// entry's error, whatever stands elsewhere in the batch.
pub proof fn lemma_decode_devices_first_invalid(rs: Seq<DeviceRecordView>, j: int)
    requires
        0 <= j < rs.len(),
        !device_record_valid(rs[j]),
        forall|k: int| 0 <= k < j ==> device_record_valid(#[trigger] rs[k]),
    ensures
        decode_devices_spec(rs) == Err::<Seq<DeviceView>, _>(device_record_err(rs[j])),
    decreases j,
{
    if j > 0 {
        lemma_decode_devices_first_invalid(rs.drop_first(), j - 1);
    }
}

/// An unknown product id anywhere in a batch aborts the whole decode with
/// the unknown-category error, regardless of the other entries, as long as
/// the entries before it decode.
pub proof fn lemma_unknown_category_aborts(rs: Seq<DeviceRecordView>, j: int)
    requires
        0 <= j < rs.len(),
        rs[j].product_id != 1 && rs[j].product_id != 3,
        forall|k: int| 0 <= k < j ==> device_record_valid(#[trigger] rs[k]),
    ensures
        decode_devices_spec(rs) == Err::<Seq<DeviceView>, _>(Error::UnknownDeviceCategory),
{
    lemma_decode_devices_first_invalid(rs, j);
}

/// A device batch decodes exactly when every entry is well-formed.
pub proof fn lemma_decode_devices_ok_iff(rs: Seq<DeviceRecordView>)
    ensures
        decode_devices_spec(rs) is Ok <==> forall|i: int|
            0 <= i < rs.len() ==> device_record_valid(#[trigger] rs[i]),
    decreases rs.len(),
{
    if rs.len() > 0 && device_record_valid(rs[0]) {
        lemma_decode_devices_ok_iff(rs.drop_first());
        assert forall|i: int|
            0 <= i < rs.len() && (forall|k: int|
                0 <= k < rs.drop_first().len() ==> device_record_valid(
                    #[trigger] rs.drop_first()[k],
                )) implies device_record_valid(#[trigger] rs[i]) by {
            if i > 0 {
                assert(rs.drop_first()[i - 1] == rs[i]);
            }
        }
    }
}

/// Decode the device list payload, all entries or none.
pub fn decode_devices(records: &Vec<DeviceRecord>) -> (r: Result<Vec<Device>, Error>)
    ensures
        match r {
            Ok(ds) => decode_devices_spec(device_records_view(records@)) == Ok::<_, Error>(
                devices_view(ds@),
            ),
            Err(e) => decode_devices_spec(device_records_view(records@)) == Err::<
                Seq<DeviceView>,
                _,
            >(e),
        },
{
    let ghost rsv = device_records_view(records@);
    let mut out: Vec<Device> = Vec::new();
    let n = records.len();
    for k in 0..n
        invariant
            n == records@.len(),
            rsv == device_records_view(records@),
            rsv.len() == n,
            out@.len() == k,
            forall|i: int| 0 <= i < k ==> device_record_valid(#[trigger] rsv[i]),
            forall|i: int| 0 <= i < k ==> out@[i]@ == device_of_record(#[trigger] rsv[i]),
    {
        let rec = &records[k];
        if rec.product_id == 1 {
            out.push(Device::Hub(Hub { name: rec.name.clone(), online: rec.online }));
        } else if rec.product_id == 3 {
            match rec.battery_voltage {
                Some(v) => {
                    out.push(
                        Device::Flap(
                            Flap { name: rec.name.clone(), online: rec.online, battery_voltage: v },
                        ),
                    );
                },
                None => {
                    proof {
                        lemma_decode_devices_first_invalid(rsv, k as int);
                    }
                    return Err(Error::UnexpectedResponseShape);
                },
            }
        } else {
            proof {
                lemma_decode_devices_first_invalid(rsv, k as int);
            }
            return Err(Error::UnknownDeviceCategory);
        }
    }
    proof {
        lemma_decode_devices_all_valid(rsv);
        assert(devices_view(out@) =~= rsv.map_values(|r: DeviceRecordView| device_of_record(r)));
    }
    Ok(out)
}

/// Decoding a batch of well-formed device entries never fails, and the
/// status line of each decoded device is, in order, a function of the entry
/// it came from alone: decode then render is deterministic and keeps the
/// order of the batch.
pub proof fn lemma_decode_then_render_deterministic(rs: Seq<DeviceRecordView>)
    requires
        forall|i: int| 0 <= i < rs.len() ==> device_record_valid(#[trigger] rs[i]),
    ensures
        decode_devices_spec(rs) matches Ok(ds) && ds.len() == rs.len() && forall|i: int|
            0 <= i < rs.len() ==> crate::device::device_line_spec(ds[i])
                == crate::device::device_line_spec(device_of_record(#[trigger] rs[i])),
{
    lemma_decode_devices_all_valid(rs);
}

/// The wire entry an entity encodes to.
pub open spec fn record_of_device(d: DeviceView) -> DeviceRecordView {
    match d {
        DeviceView::Hub(h) => DeviceRecordView {
            name: h.name,
            product_id: 1,
            online: h.online,
            battery_voltage: None,
        },
        DeviceView::Flap(f) => DeviceRecordView {
            name: f.name,
            product_id: 3,
            online: f.online,
            battery_voltage: Some(f.battery_voltage),
        },
    }
}

/// Encoding an entity always gives an entry that decodes back to it.
pub proof fn lemma_device_round_trip(d: DeviceView)
    ensures
        device_record_valid(record_of_device(d)),
        device_of_record(record_of_device(d)) == d,
{
}

/// Round trip: encoding a device list and decoding it again reproduces the
/// same devices, in the same order.
pub proof fn lemma_devices_round_trip(ds: Seq<DeviceView>)
    ensures
        decode_devices_spec(ds.map_values(|d: DeviceView| record_of_device(d))) == Ok::<_, Error>(
            ds,
        ),
{
    let enc = ds.map_values(|d: DeviceView| record_of_device(d));
    assert forall|i: int| 0 <= i < enc.len() implies device_record_valid(#[trigger] enc[i]) by {
        lemma_device_round_trip(ds[i]);
    }
    lemma_decode_devices_all_valid(enc);
    assert(enc.map_values(|r: DeviceRecordView| device_of_record(r)) =~= ds) by {
        assert forall|i: int| 0 <= i < ds.len() implies enc.map_values(
            |r: DeviceRecordView| device_of_record(r),
        )[i] == ds[i] by {
            lemma_device_round_trip(ds[i]);
        }
    }
}

/// Encode a device list into wire entries.
pub fn encode_devices(devices: &Vec<Device>) -> (rs: Vec<DeviceRecord>)
    ensures
        rs@.len() == devices@.len(),
        forall|i: int|
            0 <= i < devices@.len() ==> rs@[i]@ == record_of_device(#[trigger] devices@[i]@),
{
    let mut out: Vec<DeviceRecord> = Vec::new();
    let n = devices.len();
    for k in 0..n
        invariant
            n == devices@.len(),
            out@.len() == k,
            forall|i: int| 0 <= i < k ==> out@[i]@ == record_of_device(#[trigger] devices@[i]@),
    {
        match &devices[k] {
            Device::Hub(h) => {
                out.push(
                    DeviceRecord {
                        name: h.name.clone(),
                        product_id: 1,
                        online: h.online,
                        battery_voltage: None,
                    },
                );
            },
            Device::Flap(f) => {
                out.push(
                    DeviceRecord {
                        name: f.name.clone(),
                        product_id: 3,
                        online: f.online,
                        battery_voltage: Some(f.battery_voltage),
                    },
                );
            },
        }
    }
    out
}

/// A pet entry decodes when its timestamp is RFC 3339 text; its position is
/// checked later, when the pet is rendered.
pub open spec fn pet_record_valid(r: PetRecordView) -> bool {
    rfc3339_epoch_of(r.since) is Some
}

/// The pet a well-formed entry stands for.
pub open spec fn pet_of_record(r: PetRecordView) -> PetView
    recommends
        pet_record_valid(r),
{
    PetView {
        name: r.name,
        position: r.position,
        position_since: rfc3339_epoch_of(r.since)->0 as int,
    }
}

/// Decoding a batch of pet entries: entry by entry in order, aborting the
/// whole batch at the first timestamp that does not parse.
pub open spec fn decode_pets_spec(rs: Seq<PetRecordView>) -> Result<Seq<PetView>, Error>
    decreases rs.len(),
{
    if rs.len() == 0 {
        Ok(Seq::empty())
    } else if !pet_record_valid(rs[0]) {
        Err(Error::UnexpectedResponseShape)
    } else {
        match decode_pets_spec(rs.drop_first()) {
            Ok(rest) => Ok(seq![pet_of_record(rs[0])] + rest),
            Err(e) => Err(e),
        }
    }
}

/// A batch where every timestamp parses gives exactly the pets of its
/// entries, in order.
pub proof fn lemma_decode_pets_all_valid(rs: Seq<PetRecordView>)
    requires
        forall|i: int| 0 <= i < rs.len() ==> pet_record_valid(#[trigger] rs[i]),
    ensures
        decode_pets_spec(rs) == Ok::<_, Error>(rs.map_values(|r: PetRecordView| pet_of_record(r))),
    decreases rs.len(),
{
    let f = |r: PetRecordView| pet_of_record(r);
    if rs.len() == 0 {
        assert(rs.map_values(f) =~= Seq::<PetView>::empty());
    } else {
        lemma_decode_pets_all_valid(rs.drop_first());
        assert(rs.drop_first().map_values(f) =~= rs.map_values(f).drop_first());
        assert(seq![f(rs[0])] + rs.map_values(f).drop_first() =~= rs.map_values(f));
    }
}

/// A batch whose first non-parsing timestamp sits at `j` fails with the
/// malformed-shape error.
pub proof fn lemma_decode_pets_first_invalid(rs: Seq<PetRecordView>, j: int)
    requires
        0 <= j < rs.len(),
        !pet_record_valid(rs[j]),
        forall|k: int| 0 <= k < j ==> pet_record_valid(#[trigger] rs[k]),
    ensures
        decode_pets_spec(rs) == Err::<Seq<PetView>, _>(Error::UnexpectedResponseShape),
    decreases j,
{
    if j > 0 {
        lemma_decode_pets_first_invalid(rs.drop_first(), j - 1);
    }
}

/// A pet batch decodes exactly when every timestamp parses.
pub proof fn lemma_decode_pets_ok_iff(rs: Seq<PetRecordView>)
    ensures
        decode_pets_spec(rs) is Ok <==> forall|i: int|
            0 <= i < rs.len() ==> pet_record_valid(#[trigger] rs[i]),
    decreases rs.len(),
{
    if rs.len() > 0 && pet_record_valid(rs[0]) {
        lemma_decode_pets_ok_iff(rs.drop_first());
        assert forall|i: int|
            0 <= i < rs.len() && (forall|k: int|
                0 <= k < rs.drop_first().len() ==> pet_record_valid(
                    #[trigger] rs.drop_first()[k],
                )) implies pet_record_valid(#[trigger] rs[i]) by {
            if i > 0 {
                assert(rs.drop_first()[i - 1] == rs[i]);
            }
        }
    }
}

/// Decode the pet list payload, all entries or none.
pub fn decode_pets(records: &Vec<PetRecord>) -> (r: Result<Vec<Pet>, Error>)
    ensures
        match r {
            Ok(ps) => decode_pets_spec(pet_records_view(records@)) == Ok::<_, Error>(
                pets_view(ps@),
            ),
            Err(e) => decode_pets_spec(pet_records_view(records@)) == Err::<Seq<PetView>, _>(e),
        },
{
    let ghost rsv = pet_records_view(records@);
    let mut out: Vec<Pet> = Vec::new();
    let n = records.len();
    for k in 0..n
        invariant
            n == records@.len(),
            rsv == pet_records_view(records@),
            rsv.len() == n,
            out@.len() == k,
            forall|i: int| 0 <= i < k ==> pet_record_valid(#[trigger] rsv[i]),
            forall|i: int| 0 <= i < k ==> out@[i]@ == pet_of_record(#[trigger] rsv[i]),
    {
        let rec = &records[k];
        match parse_rfc3339(rec.since.as_str()) {
            Some(t) => {
                out.push(Pet { name: rec.name.clone(), position: rec.position, position_since: t });
            },
            None => {
                proof {
                    lemma_decode_pets_first_invalid(rsv, k as int);
                }
                return Err(Error::UnexpectedResponseShape);
            },
        }
    }
    proof {
        lemma_decode_pets_all_valid(rsv);
        assert(pets_view(out@) =~= rsv.map_values(|r: PetRecordView| pet_of_record(r)));
    }
    Ok(out)
}

/// Encode a pet list into wire entries. Succeeds exactly when every
/// timestamp lies in the range the RFC 3339 renderer covers (the epoch to
/// the end of year 9999); the entries then decode back to exactly the same
/// pets, in the same order.
pub fn encode_pets(pets: &Vec<Pet>) -> (r: Option<Vec<PetRecord>>)
    ensures
        r matches Some(rs) ==> decode_pets_spec(pet_records_view(rs@)) == Ok::<_, Error>(
            pets_view(pets@),
        ),
        r is Some <==> forall|i: int|
            0 <= i < pets@.len() ==> 0 <= #[trigger] pets@[i].position_since <= 253402300799,
{
    let mut out: Vec<PetRecord> = Vec::new();
    let n = pets.len();
    for k in 0..n
        invariant
            n == pets@.len(),
            out@.len() == k,
            forall|i: int|
                0 <= i < k ==> 0 <= #[trigger] pets@[i].position_since <= 253402300799,
            forall|i: int| 0 <= i < k ==> pet_record_valid(#[trigger] out@[i]@),
            forall|i: int|
                0 <= i < k ==> pet_of_record(#[trigger] out@[i]@) == pets@[i]@,
    {
        let p = &pets[k];
        if p.position_since < 0 || p.position_since > 253402300799 {
            return None;
        }
        let since = format_rfc3339(p.position_since);
        out.push(PetRecord { name: p.name.clone(), position: p.position, since });
    }
    proof {
        let rsv = pet_records_view(out@);
        assert forall|i: int| 0 <= i < rsv.len() implies pet_record_valid(#[trigger] rsv[i]) by {
            assert(rsv[i] == out@[i]@);
        }
        lemma_decode_pets_all_valid(rsv);
        assert(rsv.map_values(|r: PetRecordView| pet_of_record(r)) =~= pets_view(pets@));
    }
    Some(out)
}

} // verus!
