use nip29::Kind;

#[test]
fn test_moderation_kinds() {
    assert!(Kind::from(9000).is_group_moderation());
    assert!(Kind::from(9001).is_group_moderation());
    assert!(Kind::from(9002).is_group_moderation());
    assert!(Kind::from(9005).is_group_moderation());
    assert!(Kind::from(9007).is_group_moderation());
    assert!(Kind::from(9008).is_group_moderation());
    assert!(Kind::from(9009).is_group_moderation());

    // Not moderation kinds
    assert!(!Kind::from(9003).is_group_moderation());
    assert!(!Kind::from(9004).is_group_moderation());
    assert!(!Kind::from(9006).is_group_moderation());
    assert!(!Kind::from(9010).is_group_moderation());
}

#[test]
fn test_metadata_kinds() {
    assert!(Kind::from(39000).is_group_metadata());
    assert!(Kind::from(39001).is_group_metadata());
    assert!(Kind::from(39002).is_group_metadata());
    assert!(Kind::from(39003).is_group_metadata());

    assert!(!Kind::from(39004).is_group_metadata());
    assert!(!Kind::from(38999).is_group_metadata());
}

#[test]
fn test_group_event() {
    // Moderation
    assert!(Kind::from(9000).is_group_event());

    // Metadata
    assert!(Kind::from(39000).is_group_event());

    // User events
    assert!(Kind::from(9021).is_group_event());
    assert!(Kind::from(9022).is_group_event());

    // Not group events
    assert!(!Kind::from(1).is_group_event());
    assert!(!Kind::from(4).is_group_event());
}

#[test]
fn test_group_event_is_union_of_the_three_sets() {
    for code in 8990..9040u16 {
        let kind = Kind::from(code);
        let user = code == 9021 || code == 9022;
        assert_eq!(
            kind.is_group_event(),
            kind.is_group_moderation() || kind.is_group_metadata() || user
        );
    }
    for code in 38990..39010u16 {
        let kind = Kind::from(code);
        assert_eq!(
            kind.is_group_event(),
            kind.is_group_moderation() || kind.is_group_metadata()
        );
    }
}

#[test]
fn test_kind_round_trips_its_code() {
    assert_eq!(Kind::from(9000).as_u16(), 9000);
    assert_eq!(Kind::from_u16(39003).as_u16(), 39003);
}

#[test]
fn test_moderation_gaps_are_not_group_events() {
    assert!(!Kind::from(9003).is_group_event());
    assert!(!Kind::from(9004).is_group_event());
    assert!(!Kind::from(9006).is_group_event());
}
