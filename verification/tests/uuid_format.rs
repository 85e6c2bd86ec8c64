use embed_engine::uuidfmt::uuid_hyphenated;

#[test]
fn uuid_zero() {
    assert_eq!(uuid_hyphenated(0), "00000000-0000-0000-0000-000000000000");
}

#[test]
fn uuid_known_value() {
    assert_eq!(
        uuid_hyphenated(0x123e_4567_e89b_12d3_a456_4266_1417_4000),
        "123e4567-e89b-12d3-a456-426614174000"
    );
}

#[test]
fn uuid_all_ones() {
    assert_eq!(uuid_hyphenated(u128::MAX), "ffffffff-ffff-ffff-ffff-ffffffffffff");
}

#[test]
fn uuid_matches_uuid_crate() {
    for id in [
        0u128,
        1,
        0xdead_beef,
        0x123e_4567_e89b_12d3_a456_4266_1417_4000,
        u128::MAX,
        u128::MAX - 0xf0f0_f0f0,
    ] {
        assert_eq!(
            uuid_hyphenated(id),
            uuid::Uuid::from_u128(id).hyphenated().to_string()
        );
    }
}
