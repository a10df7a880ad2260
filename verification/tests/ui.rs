use aether_matrix::ui::{error, help_menu, info, info_card, leaderboard, plain_fallback, success, warning};

#[test]
fn no_style_attributes() {
    let cases = [
        info_card("T", &[("k", "v")]),
        help_menu(&[("!x", "d")]),
        success("ok"),
        error("fail"),
        warning("w"),
    ];
    for html in &cases {
        assert!(!html.contains("style="), "style= found in:\n{html}");
    }
}

#[test]
fn uses_structural_tags() {
    let card = info_card("Bot", &[("ID", "123")]);
    assert!(card.contains("<h3>"));
    assert!(card.contains("<blockquote>"));
    assert!(card.contains("<table>"));

    let menu = help_menu(&[("!ping", "测试")]);
    assert!(menu.contains("<code>!ping</code>"));
    assert!(menu.contains("<blockquote>"));
}

#[test]
fn status_uses_blockquote() {
    for html in [success("ok"), error("e"), warning("w")] {
        assert!(html.contains("<blockquote>"));
        assert!(!html.contains("style="));
    }
}

#[test]
fn info_card_exact_markup() {
    let card = info_card("Bot", &[("ID", "123")]);
    assert_eq!(
        card,
        "<h3><font color=\"#6ea8ff\">◈</font> <b><font color=\"#3164f0ff\">Bot</font></b></h3>\
<blockquote><table><tr><td><font color=\"#6a7fa8\">ID</font></td>\
<td><b><font color=\"#c8d4f0\">123</font></b></td></tr></table></blockquote>"
    );
}

#[test]
fn leaderboard_has_header_and_rows() {
    let rows = vec![vec!["1", "alice"], vec!["2", "bob"]];
    let html = leaderboard("Top", &["#", "name"], &rows);
    assert!(html.contains("<thead>"));
    assert!(html.contains("alice"));
    assert!(html.contains("bob"));
    assert!(html.contains("🏆"));
}

#[test]
fn info_status_and_plain_fallback() {
    assert!(info("note").contains("note"));
    assert_eq!(plain_fallback("<b>Hi</b> 1!"), "bHib 1");
    let long = "a".repeat(150);
    assert_eq!(plain_fallback(&long).len(), 100);
}
