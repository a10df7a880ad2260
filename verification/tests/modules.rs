use aether_matrix::admin::{
    bot_info_message, bot_subcommand, detect_image_mime, joined_argument, pong_message, required_argument,
    BotInfoHandler, BotLeaveHandler, BotPingHandler, BotSubcommand,
};
use aether_matrix::ai::{begin_turn, finish_turn, vision_model_for};
use aether_matrix::command::Permission;
use aether_matrix::conversation::{ChatMessage, ConversationManager, UserContent};
use aether_matrix::meme::{choose_gif, gif_at, meme_info, meme_not_found_message, search_url, GifFormats};
use aether_matrix::persona::{builtin_personas, room_system_prompt};

#[test]
fn test_builtin_personas_have_valid_data() {
    let personas = builtin_personas();
    assert_eq!(personas.len(), 4);
    for persona in personas {
        assert!(!persona.id.is_empty());
        assert!(!persona.name.is_empty());
        assert!(!persona.system_prompt.is_empty());
        assert!(persona.is_builtin);
        assert!(persona.created_by.is_none());
    }
}

#[test]
fn builtin_persona_ids_in_order() {
    let ids: Vec<String> = builtin_personas().into_iter().map(|p| p.id).collect();
    assert_eq!(ids, vec!["sarcastic-dev", "cyber-zen", "wiki-chan", "neko-chan"]);
    let p = builtin_personas().remove(3);
    assert_eq!(room_system_prompt(&Some(p.clone())), Some(p.system_prompt));
    assert_eq!(room_system_prompt(&None), None);
}

#[test]
fn bot_subcommands_and_handlers() {
    assert_eq!(bot_subcommand(Some("info")), BotSubcommand::Info);
    assert_eq!(bot_subcommand(Some("avatar")), BotSubcommand::Avatar);
    assert_eq!(bot_subcommand(Some("bogus")), BotSubcommand::Help);
    assert_eq!(bot_subcommand(None), BotSubcommand::Help);
    assert_eq!(BotInfoHandler.name(), "bot");
    assert_eq!(BotLeaveHandler.permission(), Permission::RoomMod);
    assert_eq!(BotPingHandler.permission(), Permission::Anyone);
    assert!(pong_message().contains("Pong! 机器人响应正常"));
}

#[test]
fn bot_arguments() {
    let args = vec!["My".to_string(), "Bot".to_string()];
    assert_eq!(joined_argument(&args), "My Bot");
    assert_eq!(required_argument(&args, "missing"), Ok("My Bot".to_string()));
    let none: Vec<String> = vec![];
    let err = required_argument(&none, "请提供名称").unwrap_err();
    assert!(err.contains("请提供名称"));
    let info = bot_info_message(Some("@bot:x"), None, 3);
    assert!(info.contains("@bot:x"));
    assert!(info.contains("未知"));
    assert!(info.contains("3 个"));
}

#[test]
fn avatar_types_from_magic_bytes() {
    assert_eq!(detect_image_mime(&[0x89, 0x50, 0x4E, 0x47, 0]), Some("image/png"));
    assert_eq!(detect_image_mime(&[0xFF, 0xD8, 0xFF, 0xE0]), Some("image/jpeg"));
    assert_eq!(detect_image_mime(b"GIF8"), Some("image/gif"));
    assert_eq!(detect_image_mime(b"RIFF"), Some("image/webp"));
    assert_eq!(detect_image_mime(b"GIF"), None);
    assert_eq!(detect_image_mime(b"abcd"), None);
}

#[test]
fn meme_search_and_choice() {
    let url = search_url("猫 cat", "KEY", 10);
    assert_eq!(
        url,
        "https://tenor.googleapis.com/v2/search?q=%E7%8C%AB%20cat&key=KEY&limit=10&random=true&media_filter=gif,tinygif"
    );
    let results = vec![
        GifFormats { tinygif: Some("tiny".to_string()), gif: "big".to_string() },
        GifFormats { tinygif: None, gif: "only".to_string() },
    ];
    assert_eq!(gif_at(&results, 0).url, "tiny");
    assert_eq!(gif_at(&results, 1).url, "only");
    let g = choose_gif(&results).unwrap();
    assert!(g.url == "tiny" || g.url == "only");
    assert!(choose_gif(&vec![]).is_none());
    assert_eq!(meme_info().name, "meme");
    assert!(meme_not_found_message("x").contains("没有找到匹配「x」的梗图"));
}

#[test]
fn a_turn_records_prompt_and_reply() {
    let mut conv = ConversationManager::new(Some("sys".to_string()), 1);
    let msgs = begin_turn(&mut conv, "s", "hi", None);
    assert_eq!(msgs.len(), 2);
    assert_eq!(msgs[1], ChatMessage::User { content: UserContent::Text("hi".to_string()) });
    let reply = finish_turn(&mut conv, "s", Some("hello".to_string()));
    assert_eq!(reply, "hello");
    let msgs = begin_turn(&mut conv, "s", "again", Some("persona"));
    assert_eq!(msgs[0], ChatMessage::System { content: "persona".to_string() });
    assert_eq!(msgs.len(), 3);
    assert_eq!(msgs[2], ChatMessage::User { content: UserContent::Text("again".to_string()) });
    assert_eq!(finish_turn(&mut conv, "new", None), "");
    assert_eq!(vision_model_for("gpt", &None), "gpt");
    assert_eq!(vision_model_for("gpt", &Some("vis".to_string())), "vis");
}
