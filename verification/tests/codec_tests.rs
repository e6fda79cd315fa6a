use nip29::{
    AccessModel, Error, GroupAdmin, GroupAdmins, GroupId, GroupMembers, GroupMetadata, GroupRoles,
    Privacy, PublicKey, Role, Url,
};

#[test]
fn test_metadata_tags_all_absent() {
    let metadata = GroupMetadata {
        name: None,
        about: None,
        picture: None,
        privacy: Privacy::Public,
        closed: AccessModel::Open,
    };
    let tags = metadata.to_tags();
    assert_eq!(tags.len(), 2);
    assert_eq!(tags[0].kind, "privacy");
    assert_eq!(tags[0].values, vec!["public".to_string()]);
    assert_eq!(tags[1].kind, "closed");
    assert_eq!(tags[1].values, vec!["open".to_string()]);
}

#[test]
fn test_metadata_tags_all_present_in_order() {
    let metadata = GroupMetadata {
        name: Some("Rust Developers".into()),
        about: Some("A group for Rust enthusiasts".into()),
        picture: Some(Url::parse("https://example.com/image.png").unwrap()),
        privacy: Privacy::Private,
        closed: AccessModel::Closed,
    };
    let tags = metadata.to_tags();
    assert_eq!(tags.len(), 5);
    assert_eq!(tags[0].kind, "name");
    assert_eq!(tags[0].values, vec!["Rust Developers".to_string()]);
    assert_eq!(tags[1].kind, "description");
    assert_eq!(tags[1].values, vec!["A group for Rust enthusiasts".to_string()]);
    assert_eq!(tags[2].kind, "image");
    assert_eq!(tags[2].values, vec!["https://example.com/image.png".to_string()]);
    assert_eq!(tags[3].kind, "privacy");
    assert_eq!(tags[3].values, vec!["private".to_string()]);
    assert_eq!(tags[4].kind, "closed");
    assert_eq!(tags[4].values, vec!["closed".to_string()]);
}

#[test]
fn test_roles_tags_values() {
    let roles = GroupRoles::new()
        .add_role(Role::new("admin"))
        .add_role(Role::with_description("moderator", "Can moderate"));
    let tags = roles.to_tags();
    assert_eq!(tags[0].kind, "role");
    assert_eq!(tags[0].values, vec!["admin".to_string()]);
    assert_eq!(tags[1].kind, "role");
    assert_eq!(tags[1].values, vec!["moderator".to_string(), "Can moderate".to_string()]);
}

#[test]
fn test_empty_records_give_empty_tag_lists() {
    assert_eq!(GroupRoles::new().to_tags().len(), 0);
    assert_eq!(GroupAdmins::new().to_tags().len(), 0);
    assert_eq!(GroupMembers::new().to_tags().len(), 0);
}

#[test]
fn test_admins_tags_interleaving() {
    let pk1 = PublicKey::from_slice(&[0x01; 32]).unwrap();
    let pk2 = PublicKey::from_slice(&[0x02; 32]).unwrap();
    let admins = GroupAdmins::new()
        .add_admin(GroupAdmin::new(pk1, vec!["admin".into()]))
        .add_admin(GroupAdmin::new(pk2, vec!["moderator".into(), "member".into()]));
    let tags = admins.to_tags();
    assert_eq!(tags.len(), 5);
    // Each admin's pubkey tag immediately precedes that admin's role tags.
    assert_eq!(tags[0].kind, "p");
    assert_eq!(tags[0].values, vec!["01".repeat(32)]);
    assert_eq!(tags[1].kind, "role");
    assert_eq!(tags[1].values, vec!["admin".to_string()]);
    assert_eq!(tags[2].kind, "p");
    assert_eq!(tags[2].values, vec!["02".repeat(32)]);
    assert_eq!(tags[3].kind, "role");
    assert_eq!(tags[3].values, vec!["moderator".to_string()]);
    assert_eq!(tags[4].kind, "role");
    assert_eq!(tags[4].values, vec!["member".to_string()]);
}

#[test]
fn test_members_tags_keep_duplicates_and_order() {
    let pk1 = PublicKey::from_slice(&[0x0a; 32]).unwrap();
    let pk2 = PublicKey::from_slice(&[0xf0; 32]).unwrap();
    let members = GroupMembers::new()
        .add_member(pk1.clone())
        .add_member(pk2)
        .add_member(pk1);
    let tags = members.to_tags();
    assert_eq!(tags.len(), 3);
    assert_eq!(tags[0].kind, "p");
    assert_eq!(tags[0].values, vec!["0a".repeat(32)]);
    assert_eq!(tags[1].values, vec!["f0".repeat(32)]);
    assert_eq!(tags[2].values, vec!["0a".repeat(32)]);
}

#[test]
fn test_public_key_hex_uses_both_nibbles() {
    let mut bytes = [0u8; 32];
    bytes[0] = 0x1f;
    bytes[31] = 0xa0;
    let pk = PublicKey::from_slice(&bytes).unwrap();
    let hex = pk.to_hex();
    assert_eq!(hex.len(), 64);
    assert!(hex.starts_with("1f"));
    assert!(hex.ends_with("a0"));
}

#[test]
fn test_public_key_rejects_wrong_length() {
    assert!(PublicKey::from_slice(&[0x01; 31]).is_none());
    assert!(PublicKey::from_slice(&[0x01; 33]).is_none());
    assert!(PublicKey::from_slice(&[]).is_none());
}

#[test]
fn test_error_variants_and_messages() {
    let url = Url::parse("wss://relay.example.com").unwrap();
    match GroupId::new(url, "".to_string()) {
        Err(Error::InvalidGroupId(m)) => {
            let e = Error::InvalidGroupId(m.clone());
            assert_eq!(e.message(), format!("Invalid group ID: {}", m));
        }
        _ => panic!("empty id must fail with InvalidGroupId"),
    }
    match GroupId::from_str("no-delimiter") {
        Err(Error::InvalidGroupIdentifier(m)) => {
            let e = Error::InvalidGroupIdentifier(m.clone());
            assert_eq!(e.message(), format!("Invalid group identifier format: {}", m));
        }
        _ => panic!("a string without the delimiter must fail with InvalidGroupIdentifier"),
    }
    match Privacy::from_str("secret") {
        Err(Error::InvalidPrivacy(m)) => {
            assert_eq!(m, "Expected 'public' or 'private', got: secret");
        }
        _ => panic!("an unknown privacy token must fail with InvalidPrivacy"),
    }
    match AccessModel::from_str("ajar") {
        Err(Error::InvalidAccessModel(m)) => {
            assert_eq!(m, "Expected 'open' or 'closed', got: ajar");
        }
        _ => panic!("an unknown access-model token must fail with InvalidAccessModel"),
    }
    let reserved = Error::MissingRequiredTag("name".to_string());
    assert_eq!(reserved.message(), "Missing required tag: name");
}

#[test]
fn test_group_id_from_str_bad_url_part() {
    match GroupId::from_str("not a url'rust-devs") {
        Err(Error::InvalidGroupIdentifier(m)) => {
            assert!(m.starts_with("Invalid relay URL: "));
        }
        _ => panic!("an unparsable URL part must fail with InvalidGroupIdentifier"),
    }
    // The id part is validated with the same rule as direct construction.
    assert!(matches!(
        GroupId::from_str("wss://relay.example.com'Rust Devs"),
        Err(Error::InvalidGroupId(_))
    ));
}

#[test]
fn test_parsers_are_case_insensitive_and_whitespace_sensitive() {
    assert_eq!(Privacy::from_str("PrIvAtE").unwrap(), Privacy::Private);
    assert_eq!(Privacy::from_str("puBLIc").unwrap(), Privacy::Public);
    assert_eq!(AccessModel::from_str("OPEN").unwrap(), AccessModel::Open);
    assert_eq!(AccessModel::from_str("cLoSeD").unwrap(), AccessModel::Closed);

    assert!(Privacy::from_str(" public").is_err());
    assert!(Privacy::from_str("public ").is_err());
    assert!(Privacy::from_str("pub").is_err());
    assert!(Privacy::from_str("").is_err());
    assert!(AccessModel::from_str("open\n").is_err());
    assert!(AccessModel::from_str("close").is_err());
}

#[test]
fn test_enum_defaults() {
    assert_eq!(Privacy::default(), Privacy::Public);
    assert_eq!(AccessModel::default(), AccessModel::Open);
    let m = GroupMetadata::default();
    assert_eq!(m.name, None);
    assert_eq!(m.about, None);
    assert!(m.picture.is_none());
    assert_eq!(m.privacy, Privacy::Public);
    assert_eq!(m.closed, AccessModel::Open);
}

#[test]
fn test_to_tag_value_trims_one_trailing_slash() {
    // The URL parser serializes a bare authority with a trailing slash;
    // the canonical form strips exactly one.
    let url = Url::parse("wss://relay.example.com/").unwrap();
    assert_eq!(url.as_str(), "wss://relay.example.com/");
    let group_id = GroupId::new(url, "rust-devs".to_string()).unwrap();
    assert_eq!(group_id.to_tag_value(), "wss://relay.example.com'rust-devs");

    let url = Url::parse("wss://relay.example.com/groups/").unwrap();
    let group_id = GroupId::new(url, "x".to_string()).unwrap();
    assert_eq!(group_id.to_tag_value(), "wss://relay.example.com/groups'x");
}

#[test]
fn test_from_str_round_trip_is_semantically_stable() {
    let parsed = GroupId::from_str("wss://relay.example.com'rust-devs").unwrap();
    // The canonical form strips the slash the parser appended, so printing
    // the parsed identifier gives back the input wire form.
    assert_eq!(parsed.to_tag_value(), "wss://relay.example.com'rust-devs");
    let reparsed = GroupId::from_str(&parsed.to_tag_value()).unwrap();
    assert_eq!(reparsed, parsed);
}

#[test]
fn test_top_level_group_via_parse() {
    let group_id = GroupId::from_str("wss://relay.example.com'_").unwrap();
    assert!(group_id.is_top_level());
    assert!(!GroupId::from_str("wss://relay.example.com'__").unwrap().is_top_level());
}
