//! Bot configuration: the settings and how they are read from a snapshot of
//! the process environment.
//!
//! Four variables are required (`MATRIX_HOMESERVER`, `MATRIX_USERNAME`,
//! `MATRIX_PASSWORD`, `OPENAI_API_KEY`); every other setting has a default.

use vstd::prelude::*;

use crate::text::{
    chars_of, lowercase_eq, owned, parse_unsigned, parse_unsigned_text, push_char, str_eq, trim,
    trim_string,
};

verus! {

/// Settings of the bot.
#[derive(Debug, Clone)]
pub struct Config {
    /// Matrix homeserver URL (required).
    pub matrix_homeserver: String,
    /// Matrix user name (required).
    pub matrix_username: String,
    /// Matrix password (required).
    pub matrix_password: String,
    /// Fixed device id, so that logins reuse one device.
    pub matrix_device_id: Option<String>,
    /// Device name shown in clients.
    pub device_display_name: String,
    /// Directory of the Matrix client's state.
    pub store_path: String,
    /// API key of the chat-completion service (required).
    pub openai_api_key: String,
    /// Base URL of the chat-completion service.
    pub openai_base_url: String,
    /// Model name.
    pub openai_model: String,
    /// System prompt.
    pub system_prompt: Option<String>,
    /// Command prefix.
    pub command_prefix: String,
    /// Rounds of history kept per session.
    pub max_history: usize,
    /// Matrix ids of the bot's owners.
    pub bot_owners: Vec<String>,
    /// Path of the database file.
    pub db_path: String,
    /// Whether replies are streamed.
    pub streaming_enabled: bool,
    /// Least time between two updates of a streamed reply, in milliseconds.
    pub streaming_min_interval_ms: u64,
    /// Least number of new characters before a streamed reply is updated.
    pub streaming_min_chars: usize,
    /// Log level.
    pub log_level: String,
    /// Whether images are understood.
    pub vision_enabled: bool,
    /// Model used for images; the chat model when absent.
    pub vision_model: Option<String>,
    /// Longest side, in pixels, that an image is scaled down to.
    pub vision_max_image_size: u32,
    /// HTTP proxy URL.
    pub proxy: Option<String>,
}

/// The settings as mathematical values.
pub struct ConfigView {
    pub matrix_homeserver: Seq<char>,
    pub matrix_username: Seq<char>,
    pub matrix_password: Seq<char>,
    pub matrix_device_id: Option<Seq<char>>,
    pub device_display_name: Seq<char>,
    pub store_path: Seq<char>,
    pub openai_api_key: Seq<char>,
    pub openai_base_url: Seq<char>,
    pub openai_model: Seq<char>,
    pub system_prompt: Option<Seq<char>>,
    pub command_prefix: Seq<char>,
    pub max_history: nat,
    pub bot_owners: Seq<Seq<char>>,
    pub db_path: Seq<char>,
    pub streaming_enabled: bool,
    pub streaming_min_interval_ms: nat,
    pub streaming_min_chars: nat,
    pub log_level: Seq<char>,
    pub vision_enabled: bool,
    pub vision_model: Option<Seq<char>>,
    pub vision_max_image_size: nat,
    pub proxy: Option<Seq<char>>,
}

/// View of an optional string.
pub open spec fn opt_view(o: Option<String>) -> Option<Seq<char>> {
    match o {
        Some(s) => Some(s@),
        None => None,
    }
}

/// Views of a sequence of strings.
pub open spec fn strings_view(v: Seq<String>) -> Seq<Seq<char>> {
    Seq::new(v.len(), |i: int| v[i]@)
}

impl View for Config {
    type V = ConfigView;

    open spec fn view(&self) -> ConfigView {
        ConfigView {
            matrix_homeserver: self.matrix_homeserver@,
            matrix_username: self.matrix_username@,
            matrix_password: self.matrix_password@,
            matrix_device_id: opt_view(self.matrix_device_id),
            device_display_name: self.device_display_name@,
            store_path: self.store_path@,
            openai_api_key: self.openai_api_key@,
            openai_base_url: self.openai_base_url@,
            openai_model: self.openai_model@,
            system_prompt: opt_view(self.system_prompt),
            command_prefix: self.command_prefix@,
            max_history: self.max_history as nat,
            bot_owners: strings_view(self.bot_owners@),
            db_path: self.db_path@,
            streaming_enabled: self.streaming_enabled,
            streaming_min_interval_ms: self.streaming_min_interval_ms as nat,
            streaming_min_chars: self.streaming_min_chars as nat,
            log_level: self.log_level@,
            vision_enabled: self.vision_enabled,
            vision_model: opt_view(self.vision_model),
            vision_max_image_size: self.vision_max_image_size as nat,
            proxy: opt_view(self.proxy),
        }
    }
}

/// The default settings: the required fields (homeserver, user name,
/// password and API key) are empty, to be filled from the environment.
pub open spec fn default_view() -> ConfigView {
    ConfigView {
        matrix_homeserver: Seq::empty(),
        matrix_username: Seq::empty(),
        matrix_password: Seq::empty(),
        matrix_device_id: None,
        device_display_name: "AI Bot"@,
        store_path: "./store"@,
        openai_api_key: Seq::empty(),
        openai_base_url: "https://api.openai.com/v1"@,
        openai_model: "gpt-4o-mini"@,
        system_prompt: None,
        command_prefix: "!"@,
        max_history: 10,
        bot_owners: Seq::empty(),
        db_path: "./store/aether.db"@,
        streaming_enabled: true,
        streaming_min_interval_ms: 1000,
        streaming_min_chars: 50,
        log_level: "info"@,
        vision_enabled: true,
        vision_model: None,
        vision_max_image_size: 1024,
        proxy: None,
    }
}

impl Default for Config {
    fn default() -> (r: Self)
        ensures
            r@ == default_view(),
    {
        let r = Config {
            matrix_homeserver: String::new(),
            matrix_username: String::new(),
            matrix_password: String::new(),
            matrix_device_id: None,
            device_display_name: owned("AI Bot"),
            store_path: owned("./store"),
            openai_api_key: String::new(),
            openai_base_url: owned("https://api.openai.com/v1"),
            openai_model: owned("gpt-4o-mini"),
            system_prompt: None,
            command_prefix: owned("!"),
            max_history: 10,
            bot_owners: Vec::new(),
            db_path: owned("./store/aether.db"),
            streaming_enabled: true,
            streaming_min_interval_ms: 1000,
            streaming_min_chars: 50,
            log_level: owned("info"),
            vision_enabled: true,
            vision_model: None,
            vision_max_image_size: 1024,
            proxy: None,
        };
        assert(strings_view(r.bot_owners@) =~= Seq::<Seq<char>>::empty());
        r
    }
}

// ---------------------------------------------------------------------------
// The environment
// ---------------------------------------------------------------------------
/// The value of variable `name` in an environment snapshot (a list of
/// name/value pairs); where a name occurs twice the later pair counts.
pub open spec fn env_get(vars: Seq<(String, String)>, name: Seq<char>) -> Option<Seq<char>>
    decreases vars.len(),
{
    if vars.len() == 0 {
        None
    } else if vars.last().0@ == name {
        Some(vars.last().1@)
    } else {
        env_get(vars.drop_last(), name)
    }
}

/// A text setting: the variable's value, or the default.
pub open spec fn text_or(vars: Seq<(String, String)>, name: Seq<char>, default: Seq<char>) -> Seq<
    char,
> {
    match env_get(vars, name) {
        Some(v) => v,
        None => default,
    }
}

/// A numeric setting: the variable parsed as an unsigned number no larger
/// than `max`, or the default when it is absent or does not parse.
pub open spec fn number_or(vars: Seq<(String, String)>, name: Seq<char>, max: nat, default: nat) -> nat {
    match env_get(vars, name) {
        Some(v) => match parse_unsigned(v, max) {
            Some(n) => n,
            None => default,
        },
        None => default,
    }
}

/// A switch: on unless the variable is set to `false` in any letter case.
pub open spec fn flag_of(vars: Seq<(String, String)>, name: Seq<char>) -> bool {
    match env_get(vars, name) {
        Some(v) => !lowercase_eq(v, "false"@),
        None => true,
    }
}

/// `s.split(c)`: the pieces between occurrences of `c`, empty ones included.
pub open spec fn split_char(s: Seq<char>, c: char) -> Seq<Seq<char>>
    decreases s.len(),
{
    if s.len() == 0 {
        seq![Seq::<char>::empty()]
    } else {
        let init = split_char(s.drop_last(), c);
        if s.last() == c {
            init.push(Seq::empty())
        } else {
            init.update(init.len() - 1, init.last().push(s.last()))
        }
    }
}

/// The owners list: the comma-separated pieces of `BOT_OWNERS`, each trimmed.
pub open spec fn owners_of(vars: Seq<(String, String)>) -> Seq<Seq<char>> {
    match env_get(vars, "BOT_OWNERS"@) {
        Some(v) => split_char(v, ',').map_values(|p: Seq<char>| trim(p)),
        None => Seq::empty(),
    }
}

/// A required variable that is not set.
#[derive(Debug, Clone, Copy, PartialEq, Eq, Structural)]
pub enum ConfigError {
    MissingHomeserver,
    MissingUsername,
    MissingPassword,
    MissingApiKey,
}

/// Name of the variable that an error is about.
pub open spec fn error_variable(e: ConfigError) -> Seq<char> {
    match e {
        ConfigError::MissingHomeserver => "MATRIX_HOMESERVER"@,
        ConfigError::MissingUsername => "MATRIX_USERNAME"@,
        ConfigError::MissingPassword => "MATRIX_PASSWORD"@,
        ConfigError::MissingApiKey => "OPENAI_API_KEY"@,
    }
}

/// Explanation that follows the variable's name in an error message.
pub open spec fn error_hint(e: ConfigError) -> Seq<char> {
    match e {
        ConfigError::MissingHomeserver =>
            " 未设置。\n请在 .env 文件或环境变量中配置 Matrix 服务器地址。\n示例: MATRIX_HOMESERVER=https://matrix.org"@,
        ConfigError::MissingUsername =>
            " 未设置。\n请在 .env 文件或环境变量中配置 Matrix 用户名。\n示例: MATRIX_USERNAME=your_username"@,
        ConfigError::MissingPassword => " 未设置。\n请在 .env 文件或环境变量中配置 Matrix 密码。"@,
        ConfigError::MissingApiKey =>
            " 未设置。\n请在 .env 文件或环境变量中配置 API 密钥。\n示例: OPENAI_API_KEY=sk-..."@,
    }
}

impl ConfigError {
    /// Name of the missing variable.
    pub fn variable(&self) -> (r: &'static str)
        ensures
            r@ == error_variable(*self),
    {
        match self {
            ConfigError::MissingHomeserver => "MATRIX_HOMESERVER",
            ConfigError::MissingUsername => "MATRIX_USERNAME",
            ConfigError::MissingPassword => "MATRIX_PASSWORD",
            ConfigError::MissingApiKey => "OPENAI_API_KEY",
        }
    }

    /// The error message: the variable's name and how to set it.
    pub fn message(&self) -> (r: String)
        ensures
            r@ == error_variable(*self) + error_hint(*self),
    {
        let mut r = owned(self.variable());
        let hint = match self {
            ConfigError::MissingHomeserver =>
                " 未设置。\n请在 .env 文件或环境变量中配置 Matrix 服务器地址。\n示例: MATRIX_HOMESERVER=https://matrix.org",
            ConfigError::MissingUsername =>
                " 未设置。\n请在 .env 文件或环境变量中配置 Matrix 用户名。\n示例: MATRIX_USERNAME=your_username",
            ConfigError::MissingPassword => " 未设置。\n请在 .env 文件或环境变量中配置 Matrix 密码。",
            ConfigError::MissingApiKey =>
                " 未设置。\n请在 .env 文件或环境变量中配置 API 密钥。\n示例: OPENAI_API_KEY=sk-...",
        };
        crate::text::push_str(&mut r, hint);
        r
    }
}

/// The first required variable, in the order homeserver, user name,
/// password, API key, that the environment lacks.
pub open spec fn missing_required(vars: Seq<(String, String)>) -> Option<ConfigError> {
    if env_get(vars, "MATRIX_HOMESERVER"@) is None {
        Some(ConfigError::MissingHomeserver)
    } else if env_get(vars, "MATRIX_USERNAME"@) is None {
        Some(ConfigError::MissingUsername)
    } else if env_get(vars, "MATRIX_PASSWORD"@) is None {
        Some(ConfigError::MissingPassword)
    } else if env_get(vars, "OPENAI_API_KEY"@) is None {
        Some(ConfigError::MissingApiKey)
    } else {
        None
    }
}

/// The settings read from an environment in which every required variable is set.
pub open spec fn config_of(vars: Seq<(String, String)>) -> ConfigView {
    ConfigView {
        matrix_homeserver: env_get(vars, "MATRIX_HOMESERVER"@).unwrap(),
        matrix_username: env_get(vars, "MATRIX_USERNAME"@).unwrap(),
        matrix_password: env_get(vars, "MATRIX_PASSWORD"@).unwrap(),
        matrix_device_id: env_get(vars, "MATRIX_DEVICE_ID"@),
        device_display_name: text_or(vars, "DEVICE_DISPLAY_NAME"@, "AI Bot"@),
        store_path: text_or(vars, "STORE_PATH"@, "./store"@),
        openai_api_key: env_get(vars, "OPENAI_API_KEY"@).unwrap(),
        openai_base_url: text_or(vars, "OPENAI_BASE_URL"@, "https://api.openai.com/v1"@),
        openai_model: text_or(vars, "OPENAI_MODEL"@, "gpt-4o-mini"@),
        system_prompt: env_get(vars, "SYSTEM_PROMPT"@),
        command_prefix: text_or(vars, "BOT_COMMAND_PREFIX"@, "!"@),
        max_history: number_or(vars, "MAX_HISTORY"@, usize::MAX as nat, 10),
        bot_owners: owners_of(vars),
        db_path: text_or(vars, "DB_PATH"@, "./store/aether.db"@),
        streaming_enabled: flag_of(vars, "STREAMING_ENABLED"@),
        streaming_min_interval_ms: number_or(
            vars,
            "STREAMING_MIN_INTERVAL_MS"@,
            u64::MAX as nat,
            1000,
        ),
        streaming_min_chars: number_or(vars, "STREAMING_MIN_CHARS"@, usize::MAX as nat, 50),
        log_level: text_or(vars, "LOG_LEVEL"@, "info"@),
        vision_enabled: flag_of(vars, "VISION_ENABLED"@),
        vision_model: env_get(vars, "VISION_MODEL"@),
        vision_max_image_size: number_or(vars, "VISION_MAX_IMAGE_SIZE"@, u32::MAX as nat, 1024),
        proxy: env_get(vars, "PROXY"@),
    }
}

// ---------------------------------------------------------------------------
// Reading the environment
// ---------------------------------------------------------------------------
/// The value of `name` in the snapshot.
pub fn env_value(vars: &Vec<(String, String)>, name: &str) -> (r: Option<String>)
    ensures
        opt_view(r) == env_get(vars@, name@),
{
    let mut found: Option<String> = None;
    let mut i: usize = 0;
    while i < vars.len()
        invariant
            i <= vars.len(),
            opt_view(found) == env_get(vars@.take(i as int), name@),
        decreases vars.len() - i,
    {
        assert(vars@.take(i + 1).drop_last() =~= vars@.take(i as int));
        if str_eq(vars[i].0.as_str(), name) {
            found = Some(vars[i].1.clone());
        }
        i += 1;
    }
    assert(vars@.take(vars.len() as int) =~= vars@);
    found
}

fn text_setting(vars: &Vec<(String, String)>, name: &str, default: &str) -> (r: String)
    ensures
        r@ == text_or(vars@, name@, default@),
{
    match env_value(vars, name) {
        Some(v) => v,
        None => owned(default),
    }
}

fn number_setting(vars: &Vec<(String, String)>, name: &str, max: u64, default: u64) -> (r: u64)
    requires
        default <= max,
    ensures
        r as nat == number_or(vars@, name@, max as nat, default as nat),
        r <= max,
{
    match env_value(vars, name) {
        Some(v) => match parse_unsigned_text(v.as_str(), max) {
            Some(n) => n,
            None => default,
        },
        None => default,
    }
}

/// `s.to_lowercase() == "false"`.
pub fn is_false_word(s: &str) -> (r: bool)
    ensures
        r == lowercase_eq(s@, "false"@),
{
    proof {
        reveal_strlit("false");
    }
    let v = chars_of(s);
    if v.len() != 5 {
        return false;
    }
    let expected = ['f', 'a', 'l', 's', 'e'];
    let mut i: usize = 0;
    while i < 5
        invariant
            i <= 5,
            v@ == s@,
            v.len() == 5,
            "false"@ == seq!['f', 'a', 'l', 's', 'e'],
            expected@ == seq!['f', 'a', 'l', 's', 'e'],
            forall|k: int| 0 <= k < i ==> crate::text::lower_ascii(#[trigger] v@[k]) == expected@[k],
        decreases 5 - i,
    {
        let c = v[i];
        let lc = if 'A' <= c && c <= 'Z' {
            ((c as u8) + 32) as char
        } else {
            c
        };
        assert(lc == crate::text::lower_ascii(c)) by {
            if 'A' <= c && c <= 'Z' {
                assert((c as u8) as u32 == c as u32);
            }
        }
        if lc != expected[i] {
            return false;
        }
        i += 1;
    }
    true
}

fn flag_setting(vars: &Vec<(String, String)>, name: &str) -> (r: bool)
    ensures
        r == flag_of(vars@, name@),
{
    match env_value(vars, name) {
        Some(v) => !is_false_word(v.as_str()),
        None => true,
    }
}

/// `s.split(c).map(|p| p.trim().to_string())`.
pub fn split_trimmed(s: &str, c: char) -> (r: Vec<String>)
    ensures
        strings_view(r@) == split_char(s@, c).map_values(|p: Seq<char>| trim(p)),
{
    let v = chars_of(s);
    let mut pieces: Vec<String> = Vec::new();
    let mut cur = String::new();
    let mut i: usize = 0;
    while i < v.len()
        invariant
            i <= v.len(),
            v@ == s@,
            split_char(v@.take(i as int), c) == strings_view(pieces@).push(cur@),
        decreases v.len() - i,
    {
        let ghost before = split_char(v@.take(i as int), c);
        assert(v@.take(i + 1).drop_last() =~= v@.take(i as int));
        assert(v@.take(i + 1).last() == v@[i as int]);
        if v[i] == c {
            let done = cur;
            pieces.push(done);
            cur = String::new();
            assert(strings_view(pieces@).push(cur@) =~= before.push(Seq::empty()));
        } else {
            push_char(&mut cur, v[i]);
            assert(strings_view(pieces@).push(cur@) =~= before.update(
                before.len() - 1,
                before.last().push(v@[i as int]),
            ));
        }
        i += 1;
    }
    assert(v@.take(v.len() as int) =~= v@);
    pieces.push(cur);
    let ghost all = strings_view(pieces@);
    let mut out: Vec<String> = Vec::new();
    let mut j: usize = 0;
    while j < pieces.len()
        invariant
            j <= pieces.len(),
            all == strings_view(pieces@),
            strings_view(out@) =~= all.take(j as int).map_values(|p: Seq<char>| trim(p)),
        decreases pieces.len() - j,
    {
        let t = trim_string(pieces[j].as_str());
        let ghost prev = strings_view(out@);
        out.push(t);
        assert(strings_view(out@) =~= prev.push(trim(all[j as int])));
        assert(all.take(j + 1) =~= all.take(j as int).push(all[j as int]));
        assert(all.take(j + 1).map_values(|p: Seq<char>| trim(p)) =~= all.take(j as int).map_values(
            |p: Seq<char>| trim(p),
        ).push(trim(all[j as int])));
        j += 1;
    }
    assert(all.take(pieces.len() as int) =~= all);
    out
}

impl Config {
    /// Reads the settings from a snapshot of the environment.
    ///
    /// Fails, naming the variable, when one of `MATRIX_HOMESERVER`,
    /// `MATRIX_USERNAME`, `MATRIX_PASSWORD`, `OPENAI_API_KEY` is not set
    /// (the first missing one in that order); every other setting falls back
    /// to its default when absent, and a number also when it does not parse.
    pub fn from_env(vars: &Vec<(String, String)>) -> (r: Result<Config, ConfigError>)
        ensures
            missing_required(vars@) is None <==> r is Ok,
            r matches Err(e) ==> missing_required(vars@) == Some(e),
            r matches Ok(c) ==> c@ == config_of(vars@),
    {
        let homeserver = match env_value(vars, "MATRIX_HOMESERVER") {
            Some(v) => v,
            None => return Err(ConfigError::MissingHomeserver),
        };
        let username = match env_value(vars, "MATRIX_USERNAME") {
            Some(v) => v,
            None => return Err(ConfigError::MissingUsername),
        };
        let password = match env_value(vars, "MATRIX_PASSWORD") {
            Some(v) => v,
            None => return Err(ConfigError::MissingPassword),
        };
        let device_id = env_value(vars, "MATRIX_DEVICE_ID");
        let display_name = text_setting(vars, "DEVICE_DISPLAY_NAME", "AI Bot");
        let store_path = text_setting(vars, "STORE_PATH", "./store");
        let api_key = match env_value(vars, "OPENAI_API_KEY") {
            Some(v) => v,
            None => return Err(ConfigError::MissingApiKey),
        };
        let base_url = text_setting(vars, "OPENAI_BASE_URL", "https://api.openai.com/v1");
        let model = text_setting(vars, "OPENAI_MODEL", "gpt-4o-mini");
        let system_prompt = env_value(vars, "SYSTEM_PROMPT");
        let prefix = text_setting(vars, "BOT_COMMAND_PREFIX", "!");
        let max_history = number_setting(vars, "MAX_HISTORY", usize::MAX as u64, 10) as usize;
        let owners = match env_value(vars, "BOT_OWNERS") {
            Some(v) => split_trimmed(v.as_str(), ','),
            None => Vec::new(),
        };
        let db_path = text_setting(vars, "DB_PATH", "./store/aether.db");
        let streaming_enabled = flag_setting(vars, "STREAMING_ENABLED");
        let interval = number_setting(vars, "STREAMING_MIN_INTERVAL_MS", u64::MAX, 1000);
        let min_chars = number_setting(vars, "STREAMING_MIN_CHARS", usize::MAX as u64, 50) as usize;
        let log_level = text_setting(vars, "LOG_LEVEL", "info");
        let vision_enabled = flag_setting(vars, "VISION_ENABLED");
        let vision_model = env_value(vars, "VISION_MODEL");
        let max_image = number_setting(vars, "VISION_MAX_IMAGE_SIZE", u32::MAX as u64, 1024) as u32;
        let proxy = env_value(vars, "PROXY");
        let c = Config {
            matrix_homeserver: homeserver,
            matrix_username: username,
            matrix_password: password,
            matrix_device_id: device_id,
            device_display_name: display_name,
            store_path: store_path,
            openai_api_key: api_key,
            openai_base_url: base_url,
            openai_model: model,
            system_prompt: system_prompt,
            command_prefix: prefix,
            max_history: max_history,
            bot_owners: owners,
            db_path: db_path,
            streaming_enabled: streaming_enabled,
            streaming_min_interval_ms: interval,
            streaming_min_chars: min_chars,
            log_level: log_level,
            vision_enabled: vision_enabled,
            vision_model: vision_model,
            vision_max_image_size: max_image,
            proxy: proxy,
        };
        assert(env_get(vars@, "BOT_OWNERS"@) is None ==> strings_view(c.bot_owners@)
            =~= owners_of(vars@));
        Ok(c)
    }
}


/// Every setting follows its own variable: a required one is the
/// variable's value; an optional text is the value or nothing; a text with
/// a default is the value when set and the default otherwise; a number is
/// the value when it reads as an unsigned number in range and the default
/// otherwise; a switch is off exactly when its variable is `false` in any
/// letter case; the owners are the comma-separated, trimmed entries of
/// `BOT_OWNERS`.
pub proof fn law_settings_follow_variables(vars: Seq<(String, String)>, c: ConfigView)
    requires
        c == config_of(vars),
    ensures
        env_get(vars, "MATRIX_HOMESERVER"@) matches Some(v) ==> c.matrix_homeserver == v,
        env_get(vars, "MATRIX_USERNAME"@) matches Some(v) ==> c.matrix_username == v,
        env_get(vars, "MATRIX_PASSWORD"@) matches Some(v) ==> c.matrix_password == v,
        env_get(vars, "OPENAI_API_KEY"@) matches Some(v) ==> c.openai_api_key == v,
        c.matrix_device_id == env_get(vars, "MATRIX_DEVICE_ID"@),
        c.system_prompt == env_get(vars, "SYSTEM_PROMPT"@),
        c.vision_model == env_get(vars, "VISION_MODEL"@),
        c.proxy == env_get(vars, "PROXY"@),
        env_get(vars, "DEVICE_DISPLAY_NAME"@) matches Some(v) ==> c.device_display_name == v,
        env_get(vars, "DEVICE_DISPLAY_NAME"@) is None ==> c.device_display_name == "AI Bot"@,
        env_get(vars, "STORE_PATH"@) matches Some(v) ==> c.store_path == v,
        env_get(vars, "STORE_PATH"@) is None ==> c.store_path == "./store"@,
        env_get(vars, "OPENAI_BASE_URL"@) matches Some(v) ==> c.openai_base_url == v,
        env_get(vars, "OPENAI_BASE_URL"@) is None ==> c.openai_base_url == "https://api.openai.com/v1"@,
        env_get(vars, "OPENAI_MODEL"@) matches Some(v) ==> c.openai_model == v,
        env_get(vars, "OPENAI_MODEL"@) is None ==> c.openai_model == "gpt-4o-mini"@,
        env_get(vars, "BOT_COMMAND_PREFIX"@) matches Some(v) ==> c.command_prefix == v,
        env_get(vars, "BOT_COMMAND_PREFIX"@) is None ==> c.command_prefix == "!"@,
        env_get(vars, "DB_PATH"@) matches Some(v) ==> c.db_path == v,
        env_get(vars, "DB_PATH"@) is None ==> c.db_path == "./store/aether.db"@,
        env_get(vars, "LOG_LEVEL"@) matches Some(v) ==> c.log_level == v,
        env_get(vars, "LOG_LEVEL"@) is None ==> c.log_level == "info"@,
        env_get(vars, "MAX_HISTORY"@) is None ==> c.max_history == 10,
        env_get(vars, "MAX_HISTORY"@) matches Some(v) ==> c.max_history == (match parse_unsigned(v, usize::MAX as nat) {
            Some(k) => k,
            None => 10,
        }),
        env_get(vars, "STREAMING_MIN_INTERVAL_MS"@) is None ==> c.streaming_min_interval_ms == 1000,
        env_get(vars, "STREAMING_MIN_INTERVAL_MS"@) matches Some(v) ==> c.streaming_min_interval_ms == (match parse_unsigned(v, u64::MAX as nat) {
            Some(k) => k,
            None => 1000,
        }),
        env_get(vars, "STREAMING_MIN_CHARS"@) is None ==> c.streaming_min_chars == 50,
        env_get(vars, "STREAMING_MIN_CHARS"@) matches Some(v) ==> c.streaming_min_chars == (match parse_unsigned(v, usize::MAX as nat) {
            Some(k) => k,
            None => 50,
        }),
        env_get(vars, "VISION_MAX_IMAGE_SIZE"@) is None ==> c.vision_max_image_size == 1024,
        env_get(vars, "VISION_MAX_IMAGE_SIZE"@) matches Some(v) ==> c.vision_max_image_size == (match parse_unsigned(v, u32::MAX as nat) {
            Some(k) => k,
            None => 1024,
        }),
        env_get(vars, "STREAMING_ENABLED"@) is None ==> c.streaming_enabled,
        (env_get(vars, "STREAMING_ENABLED"@) matches Some(v) && lowercase_eq(v, "false"@)) ==> !c.streaming_enabled,
        (env_get(vars, "STREAMING_ENABLED"@) matches Some(v) && !lowercase_eq(v, "false"@)) ==> c.streaming_enabled,
        env_get(vars, "VISION_ENABLED"@) is None ==> c.vision_enabled,
        (env_get(vars, "VISION_ENABLED"@) matches Some(v) && lowercase_eq(v, "false"@)) ==> !c.vision_enabled,
        (env_get(vars, "VISION_ENABLED"@) matches Some(v) && !lowercase_eq(v, "false"@)) ==> c.vision_enabled,
        env_get(vars, "BOT_OWNERS"@) is None ==> c.bot_owners == Seq::<Seq<char>>::empty(),
        env_get(vars, "BOT_OWNERS"@) matches Some(v) ==> c.bot_owners == split_char(v, ',').map_values(|p: Seq<char>| trim(p)),
{
}

/// Reading fails exactly when a required variable is missing, and names
/// the first one missing in the order homeserver, user name, password, API
/// key.
pub proof fn law_first_missing_variable_is_named(vars: Seq<(String, String)>)
    ensures
        env_get(vars, "MATRIX_HOMESERVER"@) is None ==> missing_required(vars) == Some(ConfigError::MissingHomeserver),
        env_get(vars, "MATRIX_HOMESERVER"@) is Some && env_get(vars, "MATRIX_USERNAME"@) is None
            ==> missing_required(vars) == Some(ConfigError::MissingUsername),
        env_get(vars, "MATRIX_HOMESERVER"@) is Some && env_get(vars, "MATRIX_USERNAME"@) is Some && env_get(
            vars,
            "MATRIX_PASSWORD"@,
        ) is None ==> missing_required(vars) == Some(ConfigError::MissingPassword),
        env_get(vars, "MATRIX_HOMESERVER"@) is Some && env_get(vars, "MATRIX_USERNAME"@) is Some && env_get(
            vars,
            "MATRIX_PASSWORD"@,
        ) is Some && env_get(vars, "OPENAI_API_KEY"@) is None ==> missing_required(vars) == Some(
            ConfigError::MissingApiKey,
        ),
        missing_required(vars) is None <==> (env_get(vars, "MATRIX_HOMESERVER"@) is Some && env_get(
            vars,
            "MATRIX_USERNAME"@,
        ) is Some && env_get(vars, "MATRIX_PASSWORD"@) is Some && env_get(vars, "OPENAI_API_KEY"@) is Some),
{
}

/// A variable's value is the one given last: nothing is set in an empty
/// environment, a later assignment of a name overrides earlier ones, and an
/// assignment of another name leaves it as it was.
pub proof fn law_last_assignment_wins(vars: Seq<(String, String)>, k: String, v: String, name: Seq<char>)
    ensures
        env_get(Seq::empty(), name) is None,
        env_get(vars.push((k, v)), k@) == Some(v@),
        k@ != name ==> env_get(vars.push((k, v)), name) == env_get(vars, name),
{
    assert(vars.push((k, v)).drop_last() =~= vars);
}

/// One of the four variables that must be set.
pub open spec fn required_name(n: Seq<char>) -> bool {
    n == "MATRIX_HOMESERVER"@ || n == "MATRIX_USERNAME"@ || n == "MATRIX_PASSWORD"@ || n == "OPENAI_API_KEY"@
}

proof fn lemma_optional_absent(vars: Seq<(String, String)>, name: Seq<char>)
    requires
        forall|i: int| 0 <= i < vars.len() ==> required_name(#[trigger] vars[i].0@),
        !required_name(name),
    ensures
        env_get(vars, name) is None,
    decreases vars.len(),
{
    if vars.len() > 0 {
        assert(required_name(vars[vars.len() - 1].0@));
        lemma_optional_absent(vars.drop_last(), name);
    }
}

/// An environment that sets the four required variables and nothing else
/// gives the default settings with those four filled in.
pub proof fn law_required_settings_over_defaults(vars: Seq<(String, String)>)
    requires
        forall|i: int| 0 <= i < vars.len() ==> required_name(#[trigger] vars[i].0@),
        missing_required(vars) is None,
    ensures
        config_of(vars) == (ConfigView {
            matrix_homeserver: env_get(vars, "MATRIX_HOMESERVER"@).unwrap(),
            matrix_username: env_get(vars, "MATRIX_USERNAME"@).unwrap(),
            matrix_password: env_get(vars, "MATRIX_PASSWORD"@).unwrap(),
            openai_api_key: env_get(vars, "OPENAI_API_KEY"@).unwrap(),
            ..default_view()
        }),
{
    reveal_strlit("MATRIX_HOMESERVER");
    reveal_strlit("MATRIX_USERNAME");
    reveal_strlit("MATRIX_PASSWORD");
    reveal_strlit("OPENAI_API_KEY");
    reveal_strlit("MATRIX_DEVICE_ID");
    assert("MATRIX_DEVICE_ID"@.len() != "MATRIX_HOMESERVER"@.len());
    assert("MATRIX_DEVICE_ID"@.len() != "MATRIX_USERNAME"@.len());
    assert("MATRIX_DEVICE_ID"@.len() != "MATRIX_PASSWORD"@.len());
    assert("MATRIX_DEVICE_ID"@.len() != "OPENAI_API_KEY"@.len());
    lemma_optional_absent(vars, "MATRIX_DEVICE_ID"@);
    reveal_strlit("DEVICE_DISPLAY_NAME");
    assert("DEVICE_DISPLAY_NAME"@.len() != "MATRIX_HOMESERVER"@.len());
    assert("DEVICE_DISPLAY_NAME"@.len() != "MATRIX_USERNAME"@.len());
    assert("DEVICE_DISPLAY_NAME"@.len() != "MATRIX_PASSWORD"@.len());
    assert("DEVICE_DISPLAY_NAME"@.len() != "OPENAI_API_KEY"@.len());
    lemma_optional_absent(vars, "DEVICE_DISPLAY_NAME"@);
    reveal_strlit("STORE_PATH");
    assert("STORE_PATH"@.len() != "MATRIX_HOMESERVER"@.len());
    assert("STORE_PATH"@.len() != "MATRIX_USERNAME"@.len());
    assert("STORE_PATH"@.len() != "MATRIX_PASSWORD"@.len());
    assert("STORE_PATH"@.len() != "OPENAI_API_KEY"@.len());
    lemma_optional_absent(vars, "STORE_PATH"@);
    reveal_strlit("OPENAI_BASE_URL");
    assert("OPENAI_BASE_URL"@.len() != "MATRIX_HOMESERVER"@.len());
    assert("OPENAI_BASE_URL"@[0] != "MATRIX_USERNAME"@[0]);
    assert("OPENAI_BASE_URL"@[0] != "MATRIX_PASSWORD"@[0]);
    assert("OPENAI_BASE_URL"@.len() != "OPENAI_API_KEY"@.len());
    lemma_optional_absent(vars, "OPENAI_BASE_URL"@);
    reveal_strlit("OPENAI_MODEL");
    assert("OPENAI_MODEL"@.len() != "MATRIX_HOMESERVER"@.len());
    assert("OPENAI_MODEL"@.len() != "MATRIX_USERNAME"@.len());
    assert("OPENAI_MODEL"@.len() != "MATRIX_PASSWORD"@.len());
    assert("OPENAI_MODEL"@.len() != "OPENAI_API_KEY"@.len());
    lemma_optional_absent(vars, "OPENAI_MODEL"@);
    reveal_strlit("SYSTEM_PROMPT");
    assert("SYSTEM_PROMPT"@.len() != "MATRIX_HOMESERVER"@.len());
    assert("SYSTEM_PROMPT"@.len() != "MATRIX_USERNAME"@.len());
    assert("SYSTEM_PROMPT"@.len() != "MATRIX_PASSWORD"@.len());
    assert("SYSTEM_PROMPT"@.len() != "OPENAI_API_KEY"@.len());
    lemma_optional_absent(vars, "SYSTEM_PROMPT"@);
    reveal_strlit("BOT_COMMAND_PREFIX");
    assert("BOT_COMMAND_PREFIX"@.len() != "MATRIX_HOMESERVER"@.len());
    assert("BOT_COMMAND_PREFIX"@.len() != "MATRIX_USERNAME"@.len());
    assert("BOT_COMMAND_PREFIX"@.len() != "MATRIX_PASSWORD"@.len());
    assert("BOT_COMMAND_PREFIX"@.len() != "OPENAI_API_KEY"@.len());
    lemma_optional_absent(vars, "BOT_COMMAND_PREFIX"@);
    reveal_strlit("MAX_HISTORY");
    assert("MAX_HISTORY"@.len() != "MATRIX_HOMESERVER"@.len());
    assert("MAX_HISTORY"@.len() != "MATRIX_USERNAME"@.len());
    assert("MAX_HISTORY"@.len() != "MATRIX_PASSWORD"@.len());
    assert("MAX_HISTORY"@.len() != "OPENAI_API_KEY"@.len());
    lemma_optional_absent(vars, "MAX_HISTORY"@);
    reveal_strlit("BOT_OWNERS");
    assert("BOT_OWNERS"@.len() != "MATRIX_HOMESERVER"@.len());
    assert("BOT_OWNERS"@.len() != "MATRIX_USERNAME"@.len());
    assert("BOT_OWNERS"@.len() != "MATRIX_PASSWORD"@.len());
    assert("BOT_OWNERS"@.len() != "OPENAI_API_KEY"@.len());
    lemma_optional_absent(vars, "BOT_OWNERS"@);
    reveal_strlit("DB_PATH");
    assert("DB_PATH"@.len() != "MATRIX_HOMESERVER"@.len());
    assert("DB_PATH"@.len() != "MATRIX_USERNAME"@.len());
    assert("DB_PATH"@.len() != "MATRIX_PASSWORD"@.len());
    assert("DB_PATH"@.len() != "OPENAI_API_KEY"@.len());
    lemma_optional_absent(vars, "DB_PATH"@);
    reveal_strlit("STREAMING_ENABLED");
    assert("STREAMING_ENABLED"@[0] != "MATRIX_HOMESERVER"@[0]);
    assert("STREAMING_ENABLED"@.len() != "MATRIX_USERNAME"@.len());
    assert("STREAMING_ENABLED"@.len() != "MATRIX_PASSWORD"@.len());
    assert("STREAMING_ENABLED"@.len() != "OPENAI_API_KEY"@.len());
    lemma_optional_absent(vars, "STREAMING_ENABLED"@);
    reveal_strlit("STREAMING_MIN_INTERVAL_MS");
    assert("STREAMING_MIN_INTERVAL_MS"@.len() != "MATRIX_HOMESERVER"@.len());
    assert("STREAMING_MIN_INTERVAL_MS"@.len() != "MATRIX_USERNAME"@.len());
    assert("STREAMING_MIN_INTERVAL_MS"@.len() != "MATRIX_PASSWORD"@.len());
    assert("STREAMING_MIN_INTERVAL_MS"@.len() != "OPENAI_API_KEY"@.len());
    lemma_optional_absent(vars, "STREAMING_MIN_INTERVAL_MS"@);
    reveal_strlit("STREAMING_MIN_CHARS");
    assert("STREAMING_MIN_CHARS"@.len() != "MATRIX_HOMESERVER"@.len());
    assert("STREAMING_MIN_CHARS"@.len() != "MATRIX_USERNAME"@.len());
    assert("STREAMING_MIN_CHARS"@.len() != "MATRIX_PASSWORD"@.len());
    assert("STREAMING_MIN_CHARS"@.len() != "OPENAI_API_KEY"@.len());
    lemma_optional_absent(vars, "STREAMING_MIN_CHARS"@);
    reveal_strlit("LOG_LEVEL");
    assert("LOG_LEVEL"@.len() != "MATRIX_HOMESERVER"@.len());
    assert("LOG_LEVEL"@.len() != "MATRIX_USERNAME"@.len());
    assert("LOG_LEVEL"@.len() != "MATRIX_PASSWORD"@.len());
    assert("LOG_LEVEL"@.len() != "OPENAI_API_KEY"@.len());
    lemma_optional_absent(vars, "LOG_LEVEL"@);
    reveal_strlit("VISION_ENABLED");
    assert("VISION_ENABLED"@.len() != "MATRIX_HOMESERVER"@.len());
    assert("VISION_ENABLED"@.len() != "MATRIX_USERNAME"@.len());
    assert("VISION_ENABLED"@.len() != "MATRIX_PASSWORD"@.len());
    assert("VISION_ENABLED"@[0] != "OPENAI_API_KEY"@[0]);
    lemma_optional_absent(vars, "VISION_ENABLED"@);
    reveal_strlit("VISION_MODEL");
    assert("VISION_MODEL"@.len() != "MATRIX_HOMESERVER"@.len());
    assert("VISION_MODEL"@.len() != "MATRIX_USERNAME"@.len());
    assert("VISION_MODEL"@.len() != "MATRIX_PASSWORD"@.len());
    assert("VISION_MODEL"@.len() != "OPENAI_API_KEY"@.len());
    lemma_optional_absent(vars, "VISION_MODEL"@);
    reveal_strlit("VISION_MAX_IMAGE_SIZE");
    assert("VISION_MAX_IMAGE_SIZE"@.len() != "MATRIX_HOMESERVER"@.len());
    assert("VISION_MAX_IMAGE_SIZE"@.len() != "MATRIX_USERNAME"@.len());
    assert("VISION_MAX_IMAGE_SIZE"@.len() != "MATRIX_PASSWORD"@.len());
    assert("VISION_MAX_IMAGE_SIZE"@.len() != "OPENAI_API_KEY"@.len());
    lemma_optional_absent(vars, "VISION_MAX_IMAGE_SIZE"@);
    reveal_strlit("PROXY");
    assert("PROXY"@.len() != "MATRIX_HOMESERVER"@.len());
    assert("PROXY"@.len() != "MATRIX_USERNAME"@.len());
    assert("PROXY"@.len() != "MATRIX_PASSWORD"@.len());
    assert("PROXY"@.len() != "OPENAI_API_KEY"@.len());
    lemma_optional_absent(vars, "PROXY"@);
}

} // verus!

