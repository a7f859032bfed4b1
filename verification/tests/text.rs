use beaconship::model::{ShipAliveReq, ShipInfo};
use beaconship::text::{decimal_string, not_found_message, registered_message, sunk_message};

#[test]
fn decimal_of_small_and_large_numbers() {
    assert_eq!(decimal_string(0), "0");
    assert_eq!(decimal_string(7), "7");
    assert_eq!(decimal_string(9), "9");
    assert_eq!(decimal_string(10), "10");
    assert_eq!(decimal_string(105), "105");
    assert_eq!(decimal_string(1_234_567_890), "1234567890");
    assert_eq!(decimal_string(u64::MAX), "18446744073709551615");
}

#[test]
fn decimal_agrees_with_std() {
    for n in (0u64..2000).chain([u64::MAX / 3, u64::MAX - 1]) {
        assert_eq!(decimal_string(n), n.to_string());
    }
}

#[test]
fn not_found_names_the_identity() {
    assert_eq!(not_found_message("A"), "Ship (A) not found");
    assert_eq!(not_found_message(""), "Ship () not found");
    assert_eq!(
        not_found_message("6f1c2d3e-0000-4000-8000-000000000001"),
        "Ship (6f1c2d3e-0000-4000-8000-000000000001) not found"
    );
}

#[test]
fn registered_message_names_the_ship() {
    let request = ShipAliveReq {
        hostname: "h1".to_string(),
        max_offline: 30,
        uuid: "A".to_string(),
    };
    assert_eq!(
        registered_message(&request),
        "Ship h1 has registered.\nuuid: A, hostname: h1, max_offline: 30"
    );
}

#[test]
fn sunk_message_holds_the_snapshot() {
    let ship = ShipInfo {
        request: ShipAliveReq {
            hostname: "harbour-7".to_string(),
            max_offline: 60,
            uuid: "abc".to_string(),
        },
        last_seen: 1_700_000_000,
    };
    assert_eq!(
        sunk_message(&ship),
        "Ship has sunk harbour-7 - last seen 1700000000:\n\nuuid: abc, hostname: harbour-7, max_offline: 60, last_seen: 1700000000"
    );
}

#[test]
fn messages_keep_text_beyond_ascii() {
    let request = ShipAliveReq {
        hostname: "schiff-\u{e4}".to_string(),
        max_offline: 1,
        uuid: "\u{2693}".to_string(),
    };
    assert_eq!(
        registered_message(&request),
        "Ship schiff-\u{e4} has registered.\nuuid: \u{2693}, hostname: schiff-\u{e4}, max_offline: 1"
    );
}
