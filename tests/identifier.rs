use std::collections::HashSet;

use uuid_blake3::{random_uuid_v4, uuid_v4_from_entropy, Error, Uuid};

#[test]
fn random_uuid_has_version_four_and_rfc_variant() {
    for _ in 0..1000 {
        let u = random_uuid_v4().unwrap();
        assert_eq!(u.version(), 4);
        assert_eq!(u.variant_bits(), 2);
        assert_eq!(u.value & 0x0000_0000_0000_f000_c000_0000_0000_0000, 0x0000_0000_0000_4000_8000_0000_0000_0000);
    }
}

#[test]
fn random_uuids_do_not_collide() {
    let mut seen = HashSet::new();
    for _ in 0..10_000 {
        assert!(seen.insert(random_uuid_v4().unwrap().value));
    }
}

#[test]
fn random_uuid_round_trips_through_text() {
    for _ in 0..100 {
        let u = random_uuid_v4().unwrap();
        let s = u.to_hyphenated_string();
        assert_eq!(s.len(), 36);
        assert_eq!(Uuid::parse_str(&s), Some(u));
    }
}

#[test]
fn canonical_text_of_known_value() {
    let u = Uuid { value: 0xf47a_c10b_58cc_4372_a567_0e02_b2c3_d479 };
    assert_eq!(u.to_hyphenated_string(), "f47ac10b-58cc-4372-a567-0e02b2c3d479");
    assert_eq!(u.version(), 4);
    assert_eq!(u.variant_bits(), 2);
}

#[test]
fn canonical_text_of_extremes() {
    assert_eq!(Uuid { value: 0 }.to_hyphenated_string(), "00000000-0000-0000-0000-000000000000");
    assert_eq!(Uuid { value: u128::MAX }.to_hyphenated_string(), "ffffffff-ffff-ffff-ffff-ffffffffffff");
}

#[test]
fn parse_known_text() {
    assert_eq!(
        Uuid::parse_str("f47ac10b-58cc-4372-a567-0e02b2c3d479"),
        Some(Uuid { value: 0xf47a_c10b_58cc_4372_a567_0e02_b2c3_d479 })
    );
}

#[test]
fn parse_rejects_malformed_text() {
    assert_eq!(Uuid::parse_str(""), None);
    assert_eq!(Uuid::parse_str("f47ac10b-58cc-4372-a567-0e02b2c3d47"), None);
    assert_eq!(Uuid::parse_str("f47ac10b-58cc-4372-a567-0e02b2c3d47g"), None);
    assert_eq!(Uuid::parse_str("f47ac10b_58cc_4372_a567_0e02b2c3d479"), None);
}

#[test]
fn entropy_bits_get_version_and_variant() {
    assert_eq!(
        uuid_v4_from_entropy(Some(0)),
        Ok(Uuid { value: 0x0000_0000_0000_4000_8000_0000_0000_0000 })
    );
    assert_eq!(
        uuid_v4_from_entropy(Some(u128::MAX)),
        Ok(Uuid { value: 0xffff_ffff_ffff_4fff_bfff_ffff_ffff_ffff })
    );
    let bits = 0xf47a_c10b_58cc_0372_1567_0e02_b2c3_d479;
    assert_eq!(
        uuid_v4_from_entropy(Some(bits)),
        Ok(Uuid { value: 0xf47a_c10b_58cc_4372_9567_0e02_b2c3_d479 })
    );
}

#[test]
fn missing_entropy_is_reported() {
    assert_eq!(uuid_v4_from_entropy(None), Err(Error::EntropyUnavailable));
}

#[test]
fn random_bits_outside_fixed_ones_are_kept() {
    let a = uuid_v4_from_entropy(Some(0x1234)).unwrap();
    let b = uuid_v4_from_entropy(Some(0x1235)).unwrap();
    assert_ne!(a, b);
    let c = uuid_v4_from_entropy(Some(0x0000_0000_0000_f000_c000_0000_0000_1234)).unwrap();
    assert_eq!(a, c);
}

#[test]
fn random_uuid_draw_succeeds_here() {
    assert!(random_uuid_v4().is_ok());
}
