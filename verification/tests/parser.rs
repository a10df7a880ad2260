use aether_matrix::command::Parser;

#[test]
fn test_parse_simple_command() {
    let parser = Parser::new("!".to_string());
    let result = parser.parse("!help").unwrap();

    assert_eq!(result.cmd, "help");
    assert!(result.args.is_empty());
}

#[test]
fn test_parse_command_with_args() {
    let parser = Parser::new("!".to_string());
    let result = parser.parse("!bot name 新名称").unwrap();

    assert_eq!(result.cmd, "bot");
    assert_eq!(result.args, vec!["name", "新名称"]);
}

#[test]
fn test_parse_command_with_quoted_args() {
    let parser = Parser::new("!".to_string());
    let result = parser.parse("!meme top \"上方文字\" \"下方文字\"").unwrap();

    assert_eq!(result.cmd, "meme");
    assert_eq!(result.args, vec!["top", "上方文字", "下方文字"]);
}

#[test]
fn test_parse_single_quotes() {
    let parser = Parser::new("!".to_string());
    let result = parser.parse("!cmd 'hello world'").unwrap();

    assert_eq!(result.cmd, "cmd");
    assert_eq!(result.args, vec!["hello world"]);
}

#[test]
fn test_parse_no_prefix() {
    let parser = Parser::new("!".to_string());
    assert!(parser.parse("help").is_none());
}

#[test]
fn test_parse_empty_after_prefix() {
    let parser = Parser::new("!".to_string());
    assert!(parser.parse("!   ").is_none());
}

#[test]
fn test_parse_multiple_args() {
    let parser = Parser::new("!".to_string());
    let result = parser.parse("!cmd arg1 arg2 arg3").unwrap();

    assert_eq!(result.cmd, "cmd");
    assert_eq!(result.args, vec!["arg1", "arg2", "arg3"]);
}

#[test]
fn test_tokenizer() {
    let tokens = Parser::tokenize("cmd \"arg with space\" simple");
    assert_eq!(tokens, vec!["cmd", "arg with space", "simple"]);
}

#[test]
fn test_custom_prefix() {
    let parser = Parser::new("!ai ".to_string());
    let result = parser.parse("!ai hello").unwrap();

    assert_eq!(result.cmd, "hello");
}

#[test]
fn test_is_command() {
    let parser = Parser::new("!".to_string());

    assert!(parser.is_command("!help"));
    assert!(parser.is_command("  !help  "));
    assert!(!parser.is_command("help"));
}

#[test]
fn parsed_message_is_a_command() {
    let parser = Parser::new("!".to_string());
    for msg in ["!help", "  !bot name x", "!'a b' c", "! spaced"] {
        if parser.parse(msg).is_some() {
            assert!(parser.is_command(msg));
        }
    }
}

#[test]
fn set_prefix_replaces_prefix() {
    let mut parser = Parser::new("!".to_string());
    parser.set_prefix("!!".to_string());
    assert_eq!(parser.prefix(), "!!");
    assert!(parser.is_command("!!help"));
    assert!(!parser.is_command("!help"));
}

#[test]
fn unterminated_quote_runs_to_end() {
    let tokens = Parser::tokenize("say \"hello world");
    assert_eq!(tokens, vec!["say", "hello world"]);
}

#[test]
fn written_command_parses_back() {
    let words = ["bot", "name", "新名称", "x1"];
    for prefix in ["!", "!ai ", "/"] {
        let parser = Parser::new(prefix.to_string());
        let msg = format!("{}{}", prefix, words.join(" "));
        let parsed = parser.parse(&msg).unwrap();
        assert_eq!(parsed.cmd, words[0]);
        assert_eq!(parsed.args, words[1..].to_vec());
    }
}
