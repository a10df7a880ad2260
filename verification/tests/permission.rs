use aether_matrix::command::Permission;

#[test]
fn test_permission_ordering() {
    assert!(Permission::BotOwner > Permission::RoomMod);
    assert!(Permission::RoomMod > Permission::Anyone);
    assert!(Permission::BotOwner > Permission::Anyone);
    assert_eq!(Permission::Anyone.cmp(&Permission::Anyone), std::cmp::Ordering::Equal);
    assert_eq!(Permission::RoomMod.cmp(&Permission::RoomMod), std::cmp::Ordering::Equal);
    assert_eq!(Permission::BotOwner.cmp(&Permission::BotOwner), std::cmp::Ordering::Equal);
}

#[test]
fn test_permission_display_name() {
    assert_eq!(Permission::Anyone.display_name(), "任何人");
    assert_eq!(Permission::RoomMod.display_name(), "房间管理员");
    assert_eq!(Permission::BotOwner.display_name(), "Bot 所有者");
}

fn owners(v: &[&str]) -> Vec<String> {
    v.iter().map(|s| s.to_string()).collect()
}

#[test]
fn test_anyone_permission_always_true() {
    let permission = Permission::Anyone;
    let bot_owners = owners(&["@admin:example.org"]);

    assert!(permission.check(false, 0, "@user:example.org", &Vec::new()));
    assert!(permission.check(false, 0, "@user:example.org", &bot_owners));
    assert!(permission.check(false, 0, "@admin:example.org", &bot_owners));
}

#[test]
fn test_bot_owner_permission_exact_match() {
    let permission = Permission::BotOwner;
    let bot_owners = owners(&["@admin1:example.org", "@admin2:example.org", "@admin3:matrix.org"]);

    assert!(permission.check(false, 0, "@admin1:example.org", &bot_owners));
    assert!(permission.check(false, 0, "@admin2:example.org", &bot_owners));
    assert!(permission.check(false, 0, "@admin3:matrix.org", &bot_owners));
}

#[test]
fn test_bot_owner_permission_no_match() {
    let permission = Permission::BotOwner;
    let bot_owners = owners(&["@admin1:example.org", "@admin2:example.org"]);

    assert!(!permission.check(false, 0, "@user:example.org", &bot_owners));
    assert!(!permission.check(false, 0, "@admin1:matrix.org", &bot_owners));
    let empty_owners: Vec<String> = vec![];
    assert!(!permission.check(false, 0, "@user:example.org", &empty_owners));
    assert!(!permission.check(false, 0, "@:example.org", &bot_owners));
}

#[test]
fn test_bot_owner_permission_edge_cases() {
    let permission = Permission::BotOwner;

    let bot_owners = owners(&["@admin_with_underscores:example.org"]);
    assert!(permission.check(false, 0, "@admin_with_underscores:example.org", &bot_owners));

    let bot_owners2 = owners(&["@Admin:example.org"]);
    assert!(!permission.check(false, 0, "@admin:example.org", &bot_owners2));
    assert!(permission.check(false, 0, "@Admin:example.org", &bot_owners2));

    let long_user = format!("@{}", "a".repeat(200));
    let long_domain = format!("{}:example.org", long_user);
    let bot_owners3 = vec![long_domain.clone()];
    assert!(permission.check(false, 0, &long_domain, &bot_owners3));
}

#[test]
fn test_permission_check_with_empty_inputs() {
    let empty_owners: Vec<String> = vec![];
    assert!(Permission::Anyone.check(false, 0, "@user:example.org", &empty_owners));
    assert!(!Permission::BotOwner.check(false, 0, "@user:example.org", &empty_owners));
}

#[test]
fn test_bot_owners_list_variations() {
    let permission = Permission::BotOwner;
    let user = "@target:example.org";

    assert!(permission.check(false, 0, user, &owners(&["@target:example.org"])));
    assert!(permission.check(
        false,
        0,
        user,
        &owners(&["@admin1:example.org", "@target:example.org", "@admin2:example.org"])
    ));
    assert!(!permission.check(false, 0, user, &owners(&["@admin1:example.org", "@admin2:example.org"])));
    assert!(permission.check(
        false,
        0,
        user,
        &owners(&["@target:example.org", "@admin:example.org", "@target:example.org"])
    ));
}

#[test]
fn test_permission_equality_and_hashing() {

    let anyone1 = Permission::Anyone;
    let anyone2 = Permission::Anyone;
    let room_mod1 = Permission::RoomMod;
    let room_mod2 = Permission::RoomMod;
    let bot_owner1 = Permission::BotOwner;
    let bot_owner2 = Permission::BotOwner;

    assert_eq!(anyone1, anyone2);
    assert_eq!(room_mod1, room_mod2);
    assert_eq!(bot_owner1, bot_owner2);

    assert_ne!(anyone1, room_mod1);
    assert_ne!(anyone1, bot_owner1);
    assert_ne!(room_mod1, bot_owner1);

    let mut permissions = std::collections::HashSet::new();
    permissions.insert(anyone1);
    permissions.insert(room_mod1);
    permissions.insert(bot_owner1);
    assert_eq!(permissions.len(), 3);
}

#[test]
fn test_permission_cloning_and_copying() {
    let original = Permission::BotOwner;
    let cloned = original.clone();
    let copied = original;

    assert_eq!(original, cloned);
    assert_eq!(cloned, copied);
}

#[test]
fn test_display_names_consistency() {
    assert!(!Permission::Anyone.display_name().is_empty());
    assert!(!Permission::RoomMod.display_name().is_empty());
    assert!(!Permission::BotOwner.display_name().is_empty());

    assert_ne!(Permission::Anyone.display_name(), Permission::RoomMod.display_name());
    assert_ne!(Permission::Anyone.display_name(), Permission::BotOwner.display_name());
    assert_ne!(Permission::RoomMod.display_name(), Permission::BotOwner.display_name());
}

#[test]
fn room_moderator_rule() {
    let no_owners: Vec<String> = vec![];
    // Direct chats: every user is a moderator.
    assert!(Permission::RoomMod.check(true, 0, "@u:x", &no_owners));
    // Group rooms: power level 50 or more.
    assert!(Permission::RoomMod.check(false, 50, "@u:x", &no_owners));
    assert!(Permission::RoomMod.check(false, 100, "@u:x", &no_owners));
    assert!(!Permission::RoomMod.check(false, 49, "@u:x", &no_owners));
    assert!(!Permission::RoomMod.check(false, 0, "@u:x", &no_owners));
    // An owner below power level 50 is no moderator of a group room.
    let admin = vec!["@u:x".to_string()];
    assert!(!Permission::RoomMod.check(false, 0, "@u:x", &admin));
}
