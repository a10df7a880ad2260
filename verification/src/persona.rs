//! Personas: named system prompts that a room can switch on.

use vstd::prelude::*;

use crate::text::owned;

verus! {

/// A persona.
#[derive(Debug, Clone)]
pub struct Persona {
    /// Identifier used in commands, such as `sarcastic-dev`.
    pub id: String,
    /// Display name.
    pub name: String,
    /// System prompt sent to the model.
    pub system_prompt: String,
    /// Emoji shown with the name.
    pub avatar_emoji: Option<String>,
    /// Whether it ships with the bot; such personas cannot be deleted.
    pub is_builtin: bool,
    /// Matrix id of whoever created a custom persona.
    pub created_by: Option<String>,
}

/// Identifiers of the built-in personas.
pub open spec fn builtin_ids() -> Seq<Seq<char>> {
    seq!["sarcastic-dev"@, "cyber-zen"@, "wiki-chan"@, "neko-chan"@]
}

/// Names of the built-in personas.
pub open spec fn builtin_names() -> Seq<Seq<char>> {
    seq!["毒舌程序员"@, "赛博禅师"@, "维基百科娘"@, "猫娘助手"@]
}

/// Emojis of the built-in personas.
pub open spec fn builtin_emojis() -> Seq<Seq<char>> {
    seq!["💻"@, "☯️"@, "📚"@, "🐱"@]
}

/// Prompts of the built-in personas.
pub open spec fn builtin_prompts() -> Seq<Seq<char>> {
    seq![
        "你是一个有20年经验的老程序员。你对低质量代码感到愤怒，对 JavaScript 有刻骨的仇恨。你的回答总是先吐槽，再给出正确答案。你喜欢引用 Stack Overflow 嘲笑不看文档的人。用中文回答，偶尔夹杂英文术语。"@,
        "你是赛博禅师，用 TCP/IP 诠释佛法，用 Git 比喻轮回。说话简短而深邃，每条回复不超过100字，结尾加禅意句子。"@,
        "你是维基百科的拟人，知识渊博、严谨客观。回答时给出来源方向，用 [来源需引用] 标注不确定内容，语气正式，结构清晰。"@,
        "你是猫娘 Neko，语气活泼可爱，句末加「喵~」。乐于助人，但有时会突然分心去追激光笔。用中文回答。"@,
    ]
}

fn builtin(id: &str, name: &str, prompt: &str, emoji: &str) -> (r: Persona)
    ensures
        r.id@ == id@,
        r.name@ == name@,
        r.system_prompt@ == prompt@,
        r.avatar_emoji matches Some(e) && e@ == emoji@,
        r.is_builtin,
        r.created_by is None,
{
    Persona {
        id: owned(id),
        name: owned(name),
        system_prompt: owned(prompt),
        avatar_emoji: Some(owned(emoji)),
        is_builtin: true,
        created_by: None,
    }
}

/// The four personas that ship with the bot.
pub fn builtin_personas() -> (r: Vec<Persona>)
    ensures
        r@.len() == 4,
        forall|i: int|
            0 <= i < 4 ==> {
                &&& #[trigger] r@[i].id@ == builtin_ids()[i]
                &&& r@[i].name@ == builtin_names()[i]
                &&& r@[i].system_prompt@ == builtin_prompts()[i]
                &&& r@[i].avatar_emoji matches Some(e) && e@ == builtin_emojis()[i]
                &&& r@[i].is_builtin
                &&& r@[i].created_by is None
            },
{
    let mut r: Vec<Persona> = Vec::new();
    r.push(builtin(
        "sarcastic-dev",
        "毒舌程序员",
        "你是一个有20年经验的老程序员。你对低质量代码感到愤怒，对 JavaScript 有刻骨的仇恨。你的回答总是先吐槽，再给出正确答案。你喜欢引用 Stack Overflow 嘲笑不看文档的人。用中文回答，偶尔夹杂英文术语。",
        "💻",
    ));
    r.push(builtin(
        "cyber-zen",
        "赛博禅师",
        "你是赛博禅师，用 TCP/IP 诠释佛法，用 Git 比喻轮回。说话简短而深邃，每条回复不超过100字，结尾加禅意句子。",
        "☯️",
    ));
    r.push(builtin(
        "wiki-chan",
        "维基百科娘",
        "你是维基百科的拟人，知识渊博、严谨客观。回答时给出来源方向，用 [来源需引用] 标注不确定内容，语气正式，结构清晰。",
        "📚",
    ));
    r.push(builtin(
        "neko-chan",
        "猫娘助手",
        "你是猫娘 Neko，语气活泼可爱，句末加「喵~」。乐于助人，但有时会突然分心去追激光笔。用中文回答。",
        "🐱",
    ));
    r
}

/// The system prompt of a room: its persona's prompt when one is on.
pub fn room_system_prompt(persona: &Option<Persona>) -> (r: Option<String>)
    ensures
        match persona {
            Some(p) => r matches Some(s) && s@ == p.system_prompt@,
            None => r is None,
        },
{
    match persona {
        Some(p) => Some(p.system_prompt.clone()),
        None => None,
    }
}

} // verus!
