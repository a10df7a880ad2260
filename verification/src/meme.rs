//! The `meme` command: searching Tenor for a GIF.
//!
//! The search request and the upload are made by the caller; this module
//! builds the request, picks the result and words the answers.

use vstd::prelude::*;

use crate::chance::random_below;
use crate::command::permission::Permission;
use crate::command::registry::CommandInfo;
use crate::text::{nat_text, owned, push_str, u64_to_string};
use crate::ui::{info_card_spec, status_spec, Status};

verus! {

/// Bytes that `urlencoding::encode` leaves as they are: ASCII letters and
/// digits, `-`, `.`, `_` and `~`.
pub open spec fn url_safe_byte(b: u8) -> bool {
    (48 <= b <= 57) || (65 <= b <= 90) || (97 <= b <= 122) || b == 45 || b == 46 || b == 95 || b == 126
}

/// An upper-case hexadecimal digit.
pub open spec fn hex_digit(d: u8) -> char {
    if d < 10 {
        (48 + d) as char
    } else {
        (55 + d) as char
    }
}

/// One byte percent-encoded: kept when safe, `%XY` (upper-case hex) otherwise.
pub open spec fn encoded_byte(b: u8) -> Seq<char> {
    if url_safe_byte(b) {
        seq![b as char]
    } else {
        seq!['%', hex_digit(b / 16), hex_digit(b % 16)]
    }
}

/// Every byte percent-encoded in turn.
pub open spec fn encoded_bytes(bytes: Seq<u8>) -> Seq<char>
    decreases bytes.len(),
{
    if bytes.len() == 0 {
        Seq::empty()
    } else {
        encoded_bytes(bytes.drop_last()) + encoded_byte(bytes.last())
    }
}

/// `urlencoding::encode`: the UTF-8 bytes of the text, percent-encoded.
pub open spec fn url_encoded(s: Seq<char>) -> Seq<char> {
    encoded_bytes(vstd::utf8::encode_utf8(s))
}

/// Percent-encodes a query with `urlencoding::encode` (urlencoding-2.1.3,
/// src/enc.rs, `encode` and `encode_into`): every UTF-8 byte but ASCII
/// letters, digits and `-._~` becomes `%` and two upper-case hex digits.
#[verifier::external_body]
fn url_encode(s: &str) -> (r: String)
    ensures
        r@ == url_encoded(s@),
{
    urlencoding::encode(s).into_owned()
}

/// A GIF found by a search.
#[derive(Debug, Clone)]
pub struct GifResult {
    /// Where to download it.
    pub url: String,
}

/// Registry entry of the command.
pub fn meme_info() -> (r: CommandInfo)
    ensures
        r.name@ == "meme"@,
        r.description@ == "搜索并发送梗图"@,
        r.usage@ == "meme <关键词>"@,
        r.permission == Permission::Anyone,
{
    CommandInfo {
        name: owned("meme"),
        description: owned("搜索并发送梗图"),
        usage: owned("meme <关键词>"),
        permission: Permission::Anyone,
    }
}

/// The search request for `query`.
pub open spec fn search_url_spec(query: Seq<char>, api_key: Seq<char>, limit: nat) -> Seq<char> {
    "https://tenor.googleapis.com/v2/search?q="@ + url_encoded(query) + "&key="@ + api_key
        + "&limit="@ + nat_text(limit) + "&random=true&media_filter=gif,tinygif"@
}

/// The URL of a Tenor search for `query`, returning at most `limit` results.
pub fn search_url(query: &str, api_key: &str, limit: u32) -> (r: String)
    ensures
        r@ == search_url_spec(query@, api_key@, limit as nat),
{
    let mut r = owned("https://tenor.googleapis.com/v2/search?q=");
    push_str(&mut r, url_encode(query).as_str());
    push_str(&mut r, "&key=");
    push_str(&mut r, api_key);
    push_str(&mut r, "&limit=");
    push_str(&mut r, u64_to_string(limit as u64).as_str());
    push_str(&mut r, "&random=true&media_filter=gif,tinygif");
    r
}

/// The formats of one search result: the small GIF, if offered, and the GIF.
#[derive(Debug, Clone)]
pub struct GifFormats {
    /// URL of the small GIF.
    pub tinygif: Option<String>,
    /// URL of the GIF.
    pub gif: String,
}

/// The URL used for a result: the small GIF when there is one.
pub open spec fn preferred_url(f: GifFormats) -> Seq<char> {
    match f.tinygif {
        Some(t) => t@,
        None => f.gif@,
    }
}

/// The GIF of result `index`.
pub fn gif_at(results: &Vec<GifFormats>, index: usize) -> (r: GifResult)
    requires
        index < results@.len(),
    ensures
        r.url@ == preferred_url(results@[index as int]),
{
    let f = &results[index];
    let url = match &f.tinygif {
        Some(t) => t.clone(),
        None => f.gif.clone(),
    };
    GifResult { url }
}

/// A random one of the results, or nothing when there is none.
pub fn choose_gif(results: &Vec<GifFormats>) -> (r: Option<GifResult>)
    requires
        results@.len() <= u32::MAX,
    ensures
        results@.len() == 0 ==> r is None,
        results@.len() > 0 ==> (r matches Some(g) && exists|i: int|
            0 <= i < results@.len() && g.url@ == preferred_url(#[trigger] results@[i])),
{
    if results.len() == 0 {
        return None;
    }
    let i = random_below(results.len() as u32) as usize;
    let g = gif_at(results, i);
    assert(g.url@ == preferred_url(results@[i as int]));
    Some(g)
}

/// The answer to `meme` without a query.
pub fn meme_usage_message() -> (r: String)
    ensures
        r@ == info_card_spec("Meme 命令"@, seq![("!meme <关键词>"@, "搜索并发送梗图"@)]),
{
    let items = [("!meme <关键词>", "搜索并发送梗图")];
    let r = crate::ui::info_card("Meme 命令", items.as_slice());
    assert(crate::ui::pairs_view(items@) =~= seq![("!meme <关键词>"@, "搜索并发送梗图"@)]);
    r
}

/// The answer when nothing matches the query.
pub fn meme_not_found_message(query: &str) -> (r: String)
    ensures
        r@ == status_spec(Status::Error, "没有找到匹配「"@ + query@ + "」的梗图"@),
{
    let mut m = owned("没有找到匹配「");
    push_str(&mut m, query);
    push_str(&mut m, "」的梗图");
    crate::ui::error(m.as_str())
}

} // verus!
