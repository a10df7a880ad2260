//! Bot administration commands: `bot` with its subcommands, `leave` and
//! `ping`, and the messages they answer with.
//!
//! The Matrix requests themselves (renaming, joining, uploading an avatar,
//! leaving) are made by the caller between these decisions.

use vstd::prelude::*;

use crate::command::permission::Permission;
use crate::command::registry::CommandInfo;
use crate::text::{join, owned, push_str, strs, str_eq, u64_to_string};
use crate::ui::{info_card_owned, info_card_spec, owned_pairs, status_spec, Status};

verus! {

/// The `bot` command.
#[derive(Debug, Clone, Copy)]
pub struct BotInfoHandler;

/// The `leave` command.
#[derive(Debug, Clone, Copy)]
pub struct BotLeaveHandler;

/// The `ping` command.
#[derive(Debug, Clone, Copy)]
pub struct BotPingHandler;

/// Registry entry with the given fields.
fn info_of(name: &str, description: &str, usage: &str, permission: Permission) -> (r: CommandInfo)
    ensures
        r.name@ == name@,
        r.description@ == description@,
        r.usage@ == usage@,
        r.permission == permission,
{
    CommandInfo { name: owned(name), description: owned(description), usage: owned(usage), permission }
}

impl BotInfoHandler {
    /// `bot`
    pub fn name(&self) -> (r: &'static str)
        ensures
            r@ == "bot"@,
    {
        "bot"
    }

    /// Description.
    pub fn description(&self) -> (r: &'static str)
        ensures
            r@ == "Bot 管理命令"@,
    {
        "Bot 管理命令"
    }

    /// Usage.
    pub fn usage(&self) -> (r: &'static str)
        ensures
            r@ == "bot <info|name|ping>"@,
    {
        "bot <info|name|ping>"
    }

    /// Open to anyone; some subcommands check the owner level themselves.
    pub fn permission(&self) -> (r: Permission)
        ensures
            r == Permission::Anyone,
    {
        Permission::Anyone
    }

    /// Registry entry of the command.
    pub fn info(&self) -> (r: CommandInfo)
        ensures
            r.name@ == "bot"@,
            r.description@ == "Bot 管理命令"@,
            r.usage@ == "bot <info|name|ping>"@,
            r.permission == Permission::Anyone,
    {
        info_of(self.name(), self.description(), self.usage(), self.permission())
    }
}

impl BotLeaveHandler {
    /// `leave`
    pub fn name(&self) -> (r: &'static str)
        ensures
            r@ == "leave"@,
    {
        "leave"
    }

    /// Description.
    pub fn description(&self) -> (r: &'static str)
        ensures
            r@ == "让 Bot 离开当前房间"@,
    {
        "让 Bot 离开当前房间"
    }

    /// Usage.
    pub fn usage(&self) -> (r: &'static str)
        ensures
            r@ == "leave"@,
    {
        "leave"
    }

    /// Room moderators only.
    pub fn permission(&self) -> (r: Permission)
        ensures
            r == Permission::RoomMod,
    {
        Permission::RoomMod
    }

    /// Registry entry of the command.
    pub fn info(&self) -> (r: CommandInfo)
        ensures
            r.name@ == "leave"@,
            r.description@ == "让 Bot 离开当前房间"@,
            r.usage@ == "leave"@,
            r.permission == Permission::RoomMod,
    {
        info_of(self.name(), self.description(), self.usage(), self.permission())
    }

    /// The farewell sent before leaving `room_id`.
    pub fn farewell(&self, room_id: &str) -> (r: String)
        ensures
            r@ == status_spec(Status::Warning, "再见！正在离开房间 "@ + room_id@ + " ..."@),
    {
        let mut m = owned("再见！正在离开房间 ");
        push_str(&mut m, room_id);
        push_str(&mut m, " ...");
        crate::ui::warning(m.as_str())
    }
}

impl BotPingHandler {
    /// `ping`
    pub fn name(&self) -> (r: &'static str)
        ensures
            r@ == "ping"@,
    {
        "ping"
    }

    /// Description.
    pub fn description(&self) -> (r: &'static str)
        ensures
            r@ == "测试 Bot 响应"@,
    {
        "测试 Bot 响应"
    }

    /// Usage.
    pub fn usage(&self) -> (r: &'static str)
        ensures
            r@ == "ping"@,
    {
        "ping"
    }

    /// Open to anyone.
    pub fn permission(&self) -> (r: Permission)
        ensures
            r == Permission::Anyone,
    {
        Permission::Anyone
    }

    /// Registry entry of the command.
    pub fn info(&self) -> (r: CommandInfo)
        ensures
            r.name@ == "ping"@,
            r.description@ == "测试 Bot 响应"@,
            r.usage@ == "ping"@,
            r.permission == Permission::Anyone,
    {
        info_of(self.name(), self.description(), self.usage(), self.permission())
    }
}

/// The answer to `ping` and `bot ping`.
pub fn pong_message() -> (r: String)
    ensures
        r@ == status_spec(Status::Success, "Pong! 机器人响应正常"@),
{
    crate::ui::success("Pong! 机器人响应正常")
}

/// A subcommand of `bot`.
#[derive(Debug, Clone, Copy, PartialEq, Eq, Structural)]
pub enum BotSubcommand {
    Info,
    Name,
    Ping,
    Rooms,
    Join,
    Prefix,
    Avatar,
    /// Anything else: the list of subcommands.
    Help,
}

/// The subcommand that the first argument names.
pub open spec fn bot_subcommand_spec(sub: Option<Seq<char>>) -> BotSubcommand {
    match sub {
        Some(s) => if s == "info"@ {
            BotSubcommand::Info
        } else if s == "name"@ {
            BotSubcommand::Name
        } else if s == "ping"@ {
            BotSubcommand::Ping
        } else if s == "rooms"@ {
            BotSubcommand::Rooms
        } else if s == "join"@ {
            BotSubcommand::Join
        } else if s == "prefix"@ {
            BotSubcommand::Prefix
        } else if s == "avatar"@ {
            BotSubcommand::Avatar
        } else {
            BotSubcommand::Help
        },
        None => BotSubcommand::Help,
    }
}

/// The subcommand of `bot` that `sub` names.
pub fn bot_subcommand(sub: Option<&str>) -> (r: BotSubcommand)
    ensures
        r == bot_subcommand_spec(match sub {
            Some(s) => Some(s@),
            None => None,
        }),
{
    match sub {
        None => BotSubcommand::Help,
        Some(s) => if str_eq(s, "info") {
            BotSubcommand::Info
        } else if str_eq(s, "name") {
            BotSubcommand::Name
        } else if str_eq(s, "ping") {
            BotSubcommand::Ping
        } else if str_eq(s, "rooms") {
            BotSubcommand::Rooms
        } else if str_eq(s, "join") {
            BotSubcommand::Join
        } else if str_eq(s, "prefix") {
            BotSubcommand::Prefix
        } else if str_eq(s, "avatar") {
            BotSubcommand::Avatar
        } else {
            BotSubcommand::Help
        },
    }
}

/// Subcommands of `bot` and what they do.
pub open spec fn bot_help_items() -> Seq<(Seq<char>, Seq<char>)> {
    seq![
        ("!bot info"@, "查看 Bot 基本信息"@),
        ("!bot name <名称>"@, "修改 Bot 显示名称（需要 Bot 所有者权限）"@),
        ("!bot avatar <url>"@, "修改 Bot 头像（需要 Bot 所有者权限）"@),
        ("!bot join <房间ID>"@, "加入指定房间（需要 Bot 所有者权限）"@),
        ("!bot rooms"@, "列出已加入的所有房间（需要 Bot 所有者权限）"@),
        ("!bot prefix <前缀>"@, "修改命令前缀（需要 Bot 所有者权限）"@),
        ("!bot ping"@, "测试响应延迟"@),
        ("!bot leave"@, "离开当前房间（需要管理员权限）"@),
    ]
}

/// The list of `bot` subcommands.
pub fn bot_help_message() -> (r: String)
    ensures
        r@ == info_card_spec("Bot 命令"@, bot_help_items()),
{
    let mut items: Vec<(String, String)> = Vec::new();
    items.push((owned("!bot info"), owned("查看 Bot 基本信息")));
    items.push((owned("!bot name <名称>"), owned("修改 Bot 显示名称（需要 Bot 所有者权限）")));
    items.push((owned("!bot avatar <url>"), owned("修改 Bot 头像（需要 Bot 所有者权限）")));
    items.push((owned("!bot join <房间ID>"), owned("加入指定房间（需要 Bot 所有者权限）")));
    items.push((owned("!bot rooms"), owned("列出已加入的所有房间（需要 Bot 所有者权限）")));
    items.push((owned("!bot prefix <前缀>"), owned("修改命令前缀（需要 Bot 所有者权限）")));
    items.push((owned("!bot ping"), owned("测试响应延迟")));
    items.push((owned("!bot leave"), owned("离开当前房间（需要管理员权限）")));
    assert(owned_pairs(items@) =~= bot_help_items());
    info_card_owned("Bot 命令", &items)
}

/// Rows of the bot information card.
pub open spec fn bot_info_items(user_id: Option<Seq<char>>, device_id: Option<Seq<char>>, rooms: nat) -> Seq<(Seq<char>, Seq<char>)> {
    seq![
        ("用户 ID"@, match user_id {
            Some(u) => u,
            None => "未知"@,
        }),
        ("设备 ID"@, match device_id {
            Some(d) => d,
            None => "未知"@,
        }),
        ("已加入房间"@, crate::text::nat_text(rooms) + " 个"@),
        ("运行状态"@, "正常运行中"@),
    ]
}

fn or_unknown(o: Option<&str>) -> (r: String)
    ensures
        r@ == match o {
            Some(s) => s@,
            None => "未知"@,
        },
{
    match o {
        Some(s) => owned(s),
        None => owned("未知"),
    }
}

/// The answer to `bot info`: the bot's user id and device id (`未知` when
/// unknown) and the number of joined rooms.
pub fn bot_info_message(user_id: Option<&str>, device_id: Option<&str>, rooms: usize) -> (r: String)
    ensures
        r@ == info_card_spec(
            "Bot 信息"@,
            bot_info_items(
                match user_id {
                    Some(u) => Some(u@),
                    None => None,
                },
                match device_id {
                    Some(d) => Some(d@),
                    None => None,
                },
                rooms as nat,
            ),
        ),
{
    let mut count = u64_to_string(rooms as u64);
    push_str(&mut count, " 个");
    let mut items: Vec<(String, String)> = Vec::new();
    items.push((owned("用户 ID"), or_unknown(user_id)));
    items.push((owned("设备 ID"), or_unknown(device_id)));
    items.push((owned("已加入房间"), count));
    items.push((owned("运行状态"), owned("正常运行中")));
    proof {
        let u = match user_id {
            Some(u) => Some(u@),
            None => None,
        };
        let d = match device_id {
            Some(d) => Some(d@),
            None => None,
        };
        assert(owned_pairs(items@) =~= bot_info_items(u, d, rooms as nat));
    }
    info_card_owned("Bot 信息", &items)
}

/// The answer to `bot rooms`: one row per joined room, id and name.
pub fn rooms_message(rooms: &Vec<(String, String)>) -> (r: String)
    ensures
        r@ == info_card_spec("已加入房间"@, owned_pairs(rooms@)),
{
    info_card_owned("已加入房间", rooms)
}

/// Refusal of an owner-only subcommand.
pub fn owner_required_message() -> (r: String)
    ensures
        r@ == status_spec(Status::Error, "权限不足: 需要 Bot 所有者权限"@),
{
    crate::ui::error("权限不足: 需要 Bot 所有者权限")
}

/// Answer to `bot prefix`.
pub fn prefix_removed_message() -> (r: String)
    ensures
        r@ == status_spec(Status::Error, "命令前缀热更新功能已移除"@),
{
    crate::ui::error("命令前缀热更新功能已移除")
}

/// The subcommand's argument: the arguments after it, joined by spaces.
pub fn joined_argument(sub_args: &[String]) -> (r: String)
    ensures
        r@ == join(strs(sub_args@), " "@),
{
    let mut v: Vec<String> = Vec::new();
    let mut i: usize = 0;
    while i < sub_args.len()
        invariant
            i <= sub_args.len(),
            v@ == sub_args@.take(i as int),
        decreases sub_args.len() - i,
    {
        v.push(sub_args[i].clone());
        assert(sub_args@.take(i + 1) =~= sub_args@.take(i as int).push(sub_args@[i as int]));
        i += 1;
    }
    assert(sub_args@.take(sub_args.len() as int) =~= sub_args@);
    crate::text::join_strings(&v, " ")
}

/// An error message `{text}{detail}`.
pub fn failure_message(text: &str, detail: &str) -> (r: String)
    ensures
        r@ == status_spec(Status::Error, text@ + detail@),
{
    let mut m = owned(text);
    push_str(&mut m, detail);
    crate::ui::error(m.as_str())
}

/// A success message `{text}{detail}`.
pub fn success_message(text: &str, detail: &str) -> (r: String)
    ensures
        r@ == status_spec(Status::Success, text@ + detail@),
{
    let mut m = owned(text);
    push_str(&mut m, detail);
    crate::ui::success(m.as_str())
}

/// The argument of a subcommand that needs one, or the error asking for it.
pub fn required_argument(sub_args: &[String], missing: &str) -> (r: Result<String, String>)
    ensures
        match r {
            Ok(a) => a@ == join(strs(sub_args@), " "@) && a@.len() > 0,
            Err(m) => join(strs(sub_args@), " "@).len() == 0 && m@ == status_spec(Status::Error, missing@),
        },
{
    let a = joined_argument(sub_args);
    if a.as_str().is_empty() {
        Err(crate::ui::error(missing))
    } else {
        Ok(a)
    }
}

// ---------------------------------------------------------------------------
// Avatar images
// ---------------------------------------------------------------------------
/// The image type that the first bytes announce: PNG, JPEG, GIF or WebP.
pub open spec fn image_mime_spec(b: Seq<u8>) -> Option<Seq<char>> {
    if b.len() < 4 {
        None
    } else if b[0] == 0x89 && b[1] == 0x50 && b[2] == 0x4E && b[3] == 0x47 {
        Some("image/png"@)
    } else if b[0] == 0xFF && b[1] == 0xD8 && b[2] == 0xFF {
        Some("image/jpeg"@)
    } else if b[0] == 0x47 && b[1] == 0x49 && b[2] == 0x46 {
        Some("image/gif"@)
    } else if b[0] == 0x52 && b[1] == 0x49 && b[2] == 0x46 && b[3] == 0x46 {
        Some("image/webp"@)
    } else {
        None
    }
}

/// The type of an avatar image from its first four bytes; none for data
/// shorter than four bytes or of another type.
pub fn detect_image_mime(bytes: &[u8]) -> (r: Option<&'static str>)
    ensures
        match r {
            Some(m) => image_mime_spec(bytes@) == Some(m@),
            None => image_mime_spec(bytes@) is None,
        },
{
    if bytes.len() < 4 {
        return None;
    }
    let (b0, b1, b2, b3) = (bytes[0], bytes[1], bytes[2], bytes[3]);
    if b0 == 0x89 && b1 == 0x50 && b2 == 0x4E && b3 == 0x47 {
        Some("image/png")
    } else if b0 == 0xFF && b1 == 0xD8 && b2 == 0xFF {
        Some("image/jpeg")
    } else if b0 == 0x47 && b1 == 0x49 && b2 == 0x46 {
        Some("image/gif")
    } else if b0 == 0x52 && b1 == 0x49 && b2 == 0x46 && b3 == 0x46 {
        Some("image/webp")
    } else {
        None
    }
}

/// Refusal of an avatar of another type.
pub fn unsupported_image_message() -> (r: String)
    ensures
        r@ == status_spec(Status::Error, "不支持的图片格式 (支持: PNG, JPEG, GIF, WebP)"@),
{
    crate::ui::error("不支持的图片格式 (支持: PNG, JPEG, GIF, WebP)")
}

} // verus!
