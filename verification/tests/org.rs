use oracles::org::{next_devaddr_start, parse_route_id, route_id_from, OrgStatus, RouteIdParseError};

#[test]
fn status_is_enabled_or_not() {
    assert_eq!(OrgStatus::Enabled, OrgStatus::Enabled.clone());
    assert_ne!(OrgStatus::Enabled, OrgStatus::Disabled);
}

#[test]
fn first_range_starts_at_the_default() {
    assert_eq!(next_devaddr_start(0x4800_0000, 0x4800_0000), 0x4800_0000);
}

#[test]
fn later_ranges_start_one_past_the_last_end() {
    assert_eq!(next_devaddr_start(0x4800_0007, 0x4800_0000), 0x4800_0008);
    assert_eq!(next_devaddr_start(-1, 0), 0);
    assert_eq!(next_devaddr_start(i64::MAX, i64::MAX), i64::MAX);
    assert_eq!(next_devaddr_start(i64::MAX - 1, 0), i64::MAX);
}

#[test]
fn route_id_is_read_as_a_uuid() {
    assert_eq!(
        parse_route_id("a1a2a3a4-b1b2-c1c2-d1d2-d3d4d5d6d7d8").unwrap(),
        0xa1a2a3a4b1b2c1c2d1d2d3d4d5d6d7d8u128
    );
    assert_eq!(
        parse_route_id("A1A2A3A4B1B2C1C2D1D2D3D4D5D6D7D8").unwrap(),
        0xa1a2a3a4b1b2c1c2d1d2d3d4d5d6d7d8u128
    );
    assert_eq!(parse_route_id("00000000-0000-0000-0000-000000000000").unwrap(), 0);
}

#[test]
fn route_id_that_is_no_uuid_is_refused() {
    for text in ["", "route", "a1a2a3a4-b1b2-c1c2-d1d2-d3d4d5d6d7d", "a1a2a3a4-b1b2-c1c2-d1d2-d3d4d5d6d7dg"]
    {
        assert!(matches!(parse_route_id(text), Err(RouteIdParseError(_))));
    }
}

#[test]
fn parser_answers_are_passed_on() {
    assert_eq!(route_id_from(Ok(17)).unwrap(), 17);
    let refusal = sqlx::types::Uuid::try_parse("no uuid").unwrap_err();
    let text = format!("{:?}", refusal);
    match route_id_from(Err(refusal)) {
        Err(RouteIdParseError(err)) => assert_eq!(format!("{:?}", err), text),
        other => panic!("unexpected {:?}", other),
    }
}
