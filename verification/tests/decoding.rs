use surepet::{Device, DeviceRecord, Error, Flap, Hub, Pet};

const DEVICES_BODY: &str = r#"
{
    "data": [
        {
            "id": 123,
            "product_id": 1,
            "name": "Hub",
            "status": {
                "led_mode": 1,
                "pairing_mode": 0,
                "online": true
            }
        },
        {
            "id": 456,
            "product_id": 3,
            "name": "Flap",
            "status": {
                "battery": 5.6175,
                "locking": {
                    "mode": 0
                },
                "online": true
            }
        }
    ]
}
"#;

#[test]
fn it_returns_devices_information() {
    let expected = vec![
        Device::Hub(Hub { name: "Hub".to_string(), online: true }),
        Device::Flap(Flap { name: "Flap".to_string(), online: true, battery_voltage: 56175 }),
    ];
    assert_eq!(surepet::parse_devices_body(DEVICES_BODY).unwrap(), expected);
}

#[test]
fn it_panics_when_device_is_unknown() {
    let body = r#"
    {
        "data": [
            {
                "id": 123,
                "product_id": 0,
                "name": "Unknown",
                "status": {
                    "online": true
                }
            }
        ]
    }
    "#;
    assert_eq!(
        surepet::parse_devices_body(body).unwrap_err(),
        Error::UnknownDeviceCategory
    );
}

#[test]
fn an_unknown_device_aborts_the_whole_batch() {
    let body = r#"
    {
        "data": [
            {"product_id": 1, "name": "Hub", "status": {"online": true}},
            {"product_id": 99, "name": "Mystery", "status": {"online": true}},
            {"product_id": 1, "name": "Hub2", "status": {"online": false}}
        ]
    }
    "#;
    assert_eq!(
        surepet::parse_devices_body(body).unwrap_err(),
        Error::UnknownDeviceCategory
    );
}

#[test]
fn a_flap_without_a_battery_reading_is_malformed() {
    let body = r#"
    {
        "data": [
            {"product_id": 3, "name": "Flap", "status": {"online": true}}
        ]
    }
    "#;
    assert_eq!(
        surepet::parse_devices_body(body).unwrap_err(),
        Error::UnexpectedResponseShape
    );
}

#[test]
fn text_that_is_not_json_is_malformed() {
    assert_eq!(
        surepet::parse_devices_body("not json at all").unwrap_err(),
        Error::UnexpectedResponseShape
    );
    assert_eq!(
        surepet::parse_pets_body("{\"data\": 5}").unwrap_err(),
        Error::UnexpectedResponseShape
    );
}

#[test]
fn an_integer_battery_reading_parses_too() {
    let body = r#"
    {
        "data": [
            {"product_id": 3, "name": "Flap", "status": {"battery": 5, "online": true}}
        ]
    }
    "#;
    let expected = vec![Device::Flap(Flap {
        name: "Flap".to_string(),
        online: true,
        battery_voltage: 50000,
    })];
    assert_eq!(surepet::parse_devices_body(body).unwrap(), expected);
}

#[test]
fn a_negative_battery_reading_clamps_to_zero() {
    let body = r#"
    {
        "data": [
            {"product_id": 3, "name": "Flap", "status": {"battery": -1.2, "online": true}}
        ]
    }
    "#;
    let expected = vec![Device::Flap(Flap {
        name: "Flap".to_string(),
        online: true,
        battery_voltage: 0,
    })];
    assert_eq!(surepet::parse_devices_body(body).unwrap(), expected);
}

#[test]
fn it_returns_pet_information() {
    let body = r#"
    {
        "data": [
            {
                "name": "Arlene",
                "position": {
                    "where": 1,
                    "since": "2023-02-05T14:12:57+00:00"
                }
            },
            {
                "name": "Garfield",
                "position": {
                    "where": 2,
                    "since": "2023-02-05T16:09:52+00:00"
                }
            }
        ]
    }
    "#;
    // 2023-02-05T14:12:57+00:00 = 1675606377, 2023-02-05T16:09:52+00:00 = 1675613392
    let expected = vec![
        Pet { name: "Arlene".to_string(), position: 1, position_since: 1675606377 },
        Pet { name: "Garfield".to_string(), position: 2, position_since: 1675613392 },
    ];
    assert_eq!(surepet::parse_pets_body(body).unwrap(), expected);
}

#[test]
fn a_timestamp_that_does_not_parse_is_malformed() {
    let body = r#"
    {
        "data": [
            {"name": "Arlene", "position": {"where": 1, "since": "yesterday"}}
        ]
    }
    "#;
    assert_eq!(
        surepet::parse_pets_body(body).unwrap_err(),
        Error::UnexpectedResponseShape
    );
}

#[test]
fn encoding_devices_and_decoding_them_reproduces_the_batch() {
    let devices = vec![
        Device::Hub(Hub { name: "Hub".to_string(), online: true }),
        Device::Flap(Flap { name: "Flap".to_string(), online: false, battery_voltage: 49213 }),
        Device::Hub(Hub { name: "Spare".to_string(), online: false }),
    ];
    let records = surepet::encode_devices(&devices);
    assert_eq!(surepet::decode_devices(&records).unwrap(), devices);
}

#[test]
fn encoding_pets_and_decoding_them_reproduces_the_batch() {
    let pets = vec![
        Pet { name: "Arlene".to_string(), position: 1, position_since: 1675606377 },
        Pet { name: "Garfield".to_string(), position: 2, position_since: 0 },
    ];
    let records = surepet::encode_pets(&pets).unwrap();
    assert_eq!(surepet::decode_pets(&records).unwrap(), pets);
}

#[test]
fn decoding_records_keeps_the_order_of_the_batch() {
    let records = vec![
        DeviceRecord {
            name: "B".to_string(),
            product_id: 3,
            online: true,
            battery_voltage: Some(56175),
        },
        DeviceRecord { name: "A".to_string(), product_id: 1, online: true, battery_voltage: None },
    ];
    let decoded = surepet::decode_devices(&records).unwrap();
    let lines = surepet::render_devices(&decoded);
    assert_eq!(
        lines,
        vec![
            "✅ B is online (battery: 51.09%)".to_string(),
            "✅ A is online".to_string(),
        ]
    );
}

#[test]
fn every_error_has_its_message() {
    assert_eq!(Error::UnknownDeviceCategory.message(), "This device is unknown!");
    assert_eq!(
        Error::UnexpectedResponseShape.message(),
        "Hm, the response didn't match the shape we expected."
    );
    assert_eq!(Error::UnexpectedResponse.message(), "Uh oh! Something unexpected happened.");
    assert_eq!(Error::InvalidCredentials.message(), "Invalid credentials");
    assert_eq!(Error::TokenExpired.message(), "Need to grab a new token");
}
