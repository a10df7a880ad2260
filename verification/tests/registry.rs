use aether_matrix::command::context::{CommandContext, CommandContextArgs};
use aether_matrix::command::gateway::{denied_reply, unknown_reply};
use aether_matrix::command::{CommandGateway, CommandInfo, CommandRegistry, Permission, Route};

fn mock(name: &str, desc: &str) -> CommandInfo {
    CommandInfo {
        name: name.to_string(),
        description: desc.to_string(),
        usage: String::new(),
        permission: Permission::Anyone,
    }
}

fn mock_with_permission(name: &str, desc: &str, permission: Permission) -> CommandInfo {
    CommandInfo { permission, ..mock(name, desc) }
}

#[test]
fn test_new_registry_is_empty() {
    let registry: CommandRegistry<()> = CommandRegistry::new();
    assert!(registry.commands().is_empty());
}

#[test]
fn test_register_adds_handler() {
    let mut registry = CommandRegistry::new();
    registry.register(mock("test", "Test command"), ());

    assert_eq!(registry.commands().len(), 1);
    assert!(registry.commands().contains(&"test".to_string()));
}

#[test]
fn test_get_returns_registered_handler() {
    let mut registry = CommandRegistry::new();
    registry.register(mock("test", "Test command"), ());

    let retrieved = registry.get("test");
    assert!(retrieved.is_some());
    assert_eq!(retrieved.unwrap().0.name, "test");
}

#[test]
fn test_get_returns_none_for_unregistered() {
    let registry: CommandRegistry<()> = CommandRegistry::new();
    let retrieved = registry.get("nonexistent");
    assert!(retrieved.is_none());
}

#[test]
fn test_commands_returns_all_names() {
    let mut registry = CommandRegistry::new();
    registry.register(mock("cmd1", "Command 1"), ());
    registry.register(mock("cmd2", "Command 2"), ());

    let commands = registry.commands();
    assert_eq!(commands.len(), 2);
    assert!(commands.contains(&"cmd1".to_string()));
    assert!(commands.contains(&"cmd2".to_string()));
}

#[test]
fn test_register_overwrites_duplicate() {
    let mut registry = CommandRegistry::new();
    registry.register(mock("test", "First"), 1u8);
    registry.register(mock("test", "Second"), 2u8);

    assert_eq!(registry.commands().len(), 1);
    let retrieved = registry.get("test").unwrap();
    assert_eq!(retrieved.0.description, "Second");
    assert_eq!(retrieved.1, 2);
}

#[test]
fn test_generate_help_includes_command_name() {
    let mut registry = CommandRegistry::new();
    registry.register(mock("help", "Show help"), ());

    let help = registry.generate_help();
    assert!(help.contains("!help"));
}

#[test]
fn test_generate_help_includes_description() {
    let mut registry = CommandRegistry::new();
    registry.register(mock("test", "This is a test command"), ());

    let help = registry.generate_help();
    assert!(help.contains("This is a test command"));
}

#[test]
fn test_generate_help_includes_permission_when_not_anyone() {
    let mut registry = CommandRegistry::new();
    registry.register(mock_with_permission("admin", "Admin command", Permission::BotOwner), ());

    let help = registry.generate_help();
    assert!(help.contains("权限"));
}

#[test]
fn test_generate_help_html_valid_html() {
    let mut registry = CommandRegistry::new();
    registry.register(mock("test", "Test command"), ());

    let html = registry.generate_help_html();
    assert!(html.contains("<"));
    assert!(html.contains(">"));
    assert!(html.contains("!test"));
}

#[test]
fn help_lists_commands_by_name() {
    let mut registry = CommandRegistry::new();
    registry.register(mock("zeta", "Z"), ());
    let mut usage = mock_with_permission("alpha", "A", Permission::RoomMod);
    usage.usage = "!alpha <x>".to_string();
    registry.register(usage, ());

    let help = registry.generate_help();
    assert_eq!(
        help,
        "可用命令:\n\n**!alpha** - A\n  用法: !alpha <x>\n  权限: 房间管理员\n\n**!zeta** - Z\n\n"
    );
}

#[test]
fn default_info_has_stock_description() {
    let info = CommandInfo::named("ping");
    assert_eq!(info.name, "ping");
    assert_eq!(info.description, "暂无描述");
    assert_eq!(info.usage, "");
    assert_eq!(info.permission, Permission::Anyone);
}

#[test]
fn test_gateway_creation() {
    let gateway: CommandGateway<()> = CommandGateway::new("!".to_string(), vec!["@admin:matrix.org".to_string()]);
    assert!(gateway.is_command("!help"));
    assert!(!gateway.is_command("help"));
}

#[test]
fn test_gateway_prefix_update() {
    let mut gateway: CommandGateway<()> = CommandGateway::new("!".to_string(), vec![]);
    assert!(gateway.is_command("!help"));
    assert!(gateway.is_command("!!help"));

    gateway.set_prefix("!!".to_string());
    assert!(gateway.is_command("!!help"));
    assert!(!gateway.is_command("!help"));
}

#[test]
fn gateway_routes_messages() {
    let mut gateway = CommandGateway::new("!".to_string(), vec!["@owner:x".to_string()]);
    gateway.register(mock_with_permission("bot", "Bot admin", Permission::BotOwner), 7u8);

    assert!(matches!(gateway.route("hello"), Route::Ignore));
    assert!(matches!(gateway.route("!help"), Route::Help));
    match gateway.route("!nope a") {
        Route::Unknown(name) => assert_eq!(name, "nope"),
        _ => panic!("expected an unknown command"),
    }
    match gateway.route("!bot leave now") {
        Route::Found { info, handler, args } => {
            assert_eq!(info.name, "bot");
            assert_eq!(*handler, 7);
            assert_eq!(args, vec!["leave".to_string(), "now".to_string()]);
        }
        _ => panic!("expected a registered command"),
    }
    assert!(gateway.authorize(Permission::BotOwner, false, 100, "@owner:x"));
    assert!(!gateway.authorize(Permission::BotOwner, false, 100, "@someone:x"));
    assert!(gateway.authorize(Permission::RoomMod, false, 50, "@someone:x"));
    assert!(!gateway.authorize(Permission::RoomMod, false, 0, "@someone:x"));
    assert!(gateway.authorize(Permission::RoomMod, true, 0, "@someone:x"));
}

#[test]
fn gateway_replies() {
    let (html, plain) = unknown_reply("nope");
    assert_eq!(plain, "未知命令: !nope");
    assert!(html.contains("未知命令: !nope"));
    let (html, plain) = denied_reply(Permission::BotOwner);
    assert_eq!(plain, "权限不足: 需要 Bot 所有者");
    assert!(html.contains("权限不足"));
}

#[test]
fn help_ignores_registration_order() {
    let mut a = CommandRegistry::new();
    a.register(mock("b", "B"), ());
    a.register(mock("a", "A"), ());
    a.register(mock("c", "C"), ());
    let mut b = CommandRegistry::new();
    b.register(mock("c", "C"), ());
    b.register(mock("a", "A"), ());
    b.register(mock("b", "B"), ());
    assert_eq!(a.generate_help(), b.generate_help());
    assert_eq!(a.generate_help_html(), b.generate_help_html());
    assert_eq!(a.generate_help(), "可用命令:\n\n**!a** - A\n\n**!b** - B\n\n**!c** - C\n\n");
}

#[test]
fn free_text_of_a_command_is_all_its_arguments() {
    let ctx = |args: &[&str]| {
        CommandContext::new(CommandContextArgs {
            room_id: "!r:x".to_string(),
            sender: "@u:x".to_string(),
            args: args.iter().map(|s| s.to_string()).collect(),
            bot_owners: vec![],
        })
    };
    // `!称号 功德圆满` equips the title named by the whole argument text.
    assert_eq!(ctx(&["功德圆满"]).args_text(), "功德圆满");
    assert_eq!(ctx(&["funny", "cat"]).args_text(), "funny cat");
    assert_eq!(ctx(&[]).args_text(), "");
    assert!(ctx(&["cat"]).sub_args().is_empty());
}
