use surepet::{Flap, Hub, Information, Pet};

// Unix timestamps used below:
// 2023-01-01T10:32:52+00:00 = 1672569172
// 2023-01-01T12:00:00+00:00 = 1672574400
// 2022-12-28T16:09:52+00:00 = 1672243792

#[test]
fn it_formats_information_when_flap_is_online() {
    assert_eq!(
        Flap { name: "Flap".to_string(), online: true, battery_voltage: 56175 }.information(),
        "✅ Flap is online (battery: 51.09%)"
    );
}

#[test]
fn it_formats_information_when_flap_battery_is_low() {
    assert_eq!(
        Flap { name: "Flap".to_string(), online: true, battery_voltage: 49213 }.information(),
        "🪫 Flap is online (battery: 7.58%)"
    );
}

#[test]
fn it_formats_information_when_flap_is_disconnected() {
    assert_eq!(
        Flap { name: "Flap".to_string(), online: false, battery_voltage: 56175 }.information(),
        "❌ Flap is disconnected"
    );
}

#[test]
fn flap_full_pack_reads_one_hundred_percent() {
    assert_eq!(
        Flap { name: "Flap".to_string(), online: true, battery_voltage: 64000 }.information(),
        "✅ Flap is online (battery: 100.00%)"
    );
}

#[test]
fn flap_empty_pack_reads_zero_percent() {
    assert_eq!(
        Flap { name: "Flap".to_string(), online: true, battery_voltage: 48000 }.information(),
        "🪫 Flap is online (battery: 0.00%)"
    );
}

#[test]
fn flap_percentage_is_clamped_beyond_the_endpoints() {
    assert_eq!(
        Flap { name: "Flap".to_string(), online: true, battery_voltage: 70000 }.information(),
        "✅ Flap is online (battery: 100.00%)"
    );
    assert_eq!(
        Flap { name: "Flap".to_string(), online: true, battery_voltage: 40000 }.information(),
        "🪫 Flap is online (battery: 0.00%)"
    );
}

#[test]
fn flap_glyph_flips_just_above_ten_percent() {
    assert_eq!(
        Flap { name: "Flap".to_string(), online: true, battery_voltage: 49600 }.information(),
        "🪫 Flap is online (battery: 10.00%)"
    );
    assert_eq!(
        Flap { name: "Flap".to_string(), online: true, battery_voltage: 49601 }.information(),
        "✅ Flap is online (battery: 10.01%)"
    );
}

#[test]
fn it_formats_information_when_hub_is_online() {
    assert_eq!(
        Hub { name: "Hub".to_string(), online: true }.information(),
        "✅ Hub is online"
    );
}

#[test]
fn it_formats_information_when_hub_is_disconnected() {
    assert_eq!(
        Hub { name: "Hub".to_string(), online: false }.information(),
        "❌ Hub is disconnected"
    );
}

#[test]
fn it_formats_information_when_pet_is_inside() {
    let pet = Pet { name: "Garfield".to_string(), position: 1, position_since: 1672569172 };
    assert_eq!(
        pet.information(1672574400).unwrap(),
        "🏠 Garfield is inside since 1h 27m 8s"
    );
}

#[test]
fn it_formats_information_when_pet_is_outside() {
    let pet = Pet { name: "Garfield".to_string(), position: 2, position_since: 1672243792 };
    assert_eq!(
        pet.information(1672574400).unwrap(),
        "🏡 Garfield is outside since 3days 19h 50m 8s"
    );
}

#[test]
fn every_position_outside_the_two_known_ones_is_invalid() {
    for position in [0u8, 3, 4, 100, 255] {
        let pet = Pet { name: "Garfield".to_string(), position, position_since: 0 };
        assert_eq!(pet.information(10).unwrap_err(), surepet::Error::InvalidPetPosition);
    }
}

#[test]
fn an_invalid_position_is_reported_whatever_the_timestamp() {
    let pet = Pet { name: "Garfield".to_string(), position: 7, position_since: 100 };
    assert_eq!(pet.information(0).unwrap_err(), surepet::Error::InvalidPetPosition);
}

#[test]
fn durations_drop_zero_units_and_pluralize_days() {
    let pet = |since: i64| Pet { name: "P".to_string(), position: 1, position_since: since };
    let now: i64 = 1000000;
    assert_eq!(pet(now).information(now).unwrap(), "🏠 P is inside since 0s");
    assert_eq!(
        pet(now - 86400).information(now).unwrap(),
        "🏠 P is inside since 1day"
    );
    assert_eq!(
        pet(now - 90061).information(now).unwrap(),
        "🏠 P is inside since 1day 1h 1m 1s"
    );
    assert_eq!(
        pet(now - 3608).information(now).unwrap(),
        "🏠 P is inside since 1h 8s"
    );
    assert_eq!(surepet::position_duration(now - 172800, now), "2days");
}
