//! The built-in `web_fetch` tool: checks the request, and turns the fetched
//! page into text of bounded length.
//!
//! The request itself goes over the network and is made by the caller
//! between [`WebFetchTool::prepare`] and [`WebFetchTool::finish`].

use vstd::prelude::*;
use vstd::string::*;

use crate::config::opt_view;
use crate::text::{
    chars_of, is_ws, join, join_strings, lemma_join_push, nat_text, owned, push_char, push_str, string_from_range, strs,
    u64_to_string,
};

use super::config::WebFetchConfig;
use super::tools::ToolResult;

verus! {

/// Name of the tool.
pub const TOOL_NAME: &'static str = "web_fetch";

/// Description of the tool offered to the model.
pub const TOOL_DESCRIPTION: &'static str =
    "Fetch content from a web URL and extract text. Useful for getting information from websites.";

/// Pattern of script elements.
pub const SCRIPT_PATTERN: &'static str = "<script[^>]*>.*?</script>";

/// Pattern of style elements.
pub const STYLE_PATTERN: &'static str = "<style[^>]*>.*?</style>";

/// Pattern of any tag.
pub const TAG_PATTERN: &'static str = "<[^>]+>";

/// Serialisation of `s` parsed as an absolute URL (`url::Url::parse`), or
/// nothing when it does not parse.
pub uninterp spec fn url_parse(s: Seq<char>) -> Option<Seq<char>>;

/// `Regex::new(pattern).replace_all(text, rep)`.
pub uninterp spec fn regex_replace_all(pattern: Seq<char>, text: Seq<char>, rep: Seq<char>) -> Seq<char>;

/// Texts of the elements of the HTML document `html` that the CSS selector
/// `selector` matches, in document order, each the concatenation of its text
/// nodes (`scraper`); nothing when the selector does not parse.
pub uninterp spec fn css_select_texts(html: Seq<char>, selector: Seq<char>) -> Option<Seq<Seq<char>>>;

/// Debug rendering of the error of a selector that does not parse.
pub uninterp spec fn css_selector_error(selector: Seq<char>) -> Seq<char>;

/// Parses an absolute URL with `url::Url::parse` (url-2.5.8, src/lib.rs:341,
/// which returns `Err` when no absolute URL can be parsed) and reads it back
/// with `Url::as_str`; the contract claims that the result is the parser's
/// serialisation of the URL, or nothing when the parser refuses the text.
/// What that serialisation is on given text is left unsaid.
#[verifier::external_body]
fn parse_url(s: &str) -> (r: Option<String>)
    ensures
        opt_view(r) == url_parse(s@),
{
    match url::Url::parse(s) {
        Ok(u) => Some(u.as_str().to_string()),
        Err(_) => None,
    }
}

/// Replaces every match of one of the tool's fixed patterns with `rep`
/// (`regex::Regex::new`, regex-1.13.1 src/regex/string.rs:229, and
/// `Regex::replace_all`, line 891); the contract claims only that the
/// result is the crate's result for these arguments, which the matching
/// rules of the crate decide and which is left unsaid. The patterns are
/// fixed and valid, so `Regex::new` does not fail, and the replacement holds
/// no `$`, so it is inserted as written.
#[verifier::external_body]
fn replace_pattern(pattern: &str, text: &str, rep: &str) -> (r: String)
    requires
        pattern@ == SCRIPT_PATTERN@ || pattern@ == STYLE_PATTERN@ || pattern@ == TAG_PATTERN@,
    ensures
        r@ == regex_replace_all(pattern@, text@, rep@),
{
    regex::Regex::new(pattern).unwrap().replace_all(text, rep).into_owned()
}

/// Parses `html` (`scraper::Html::parse_document`, scraper-0.29.0
/// src/html/mod.rs:78) and the selector (`scraper::Selector::parse`,
/// src/selector.rs:32, which returns `Err` for a selector it cannot parse)
/// and collects the text of every matching element (`Html::select`,
/// src/html/mod.rs:97, and `ElementRef::text`). The contract claims that the
/// texts, or the selector's error, are the crate's results for these
/// arguments; how HTML is parsed and selectors matched is left unsaid.
#[verifier::external_body]
fn select_texts(html: &str, selector: &str) -> (r: Result<Vec<String>, String>)
    ensures
        match r {
            Ok(v) => css_select_texts(html@, selector@) == Some(strs(v@)),
            Err(e) => css_select_texts(html@, selector@) is None && e@ == css_selector_error(
                selector@,
            ),
        },
{
    let document = scraper::Html::parse_document(html);
    match scraper::Selector::parse(selector) {
        Ok(sel) => Ok(document.select(&sel).map(|el| el.text().collect::<String>()).collect()),
        Err(e) => Err(format!("{:?}", e)),
    }
}

// ---------------------------------------------------------------------------
// Whitespace
// ---------------------------------------------------------------------------
/// `s.split_whitespace()`: the maximal runs of non-whitespace characters.
pub open spec fn words(s: Seq<char>) -> Seq<Seq<char>>
    decreases s.len(),
{
    if s.len() == 0 {
        Seq::empty()
    } else {
        let w = words(s.drop_last());
        let c = s.last();
        if is_ws(c) {
            w
        } else if s.len() >= 2 && !is_ws(s[s.len() - 2]) {
            w.update(w.len() - 1, w.last().push(c))
        } else {
            w.push(seq![c])
        }
    }
}

proof fn lemma_words_nonempty(s: Seq<char>)
    requires
        s.len() > 0,
        !is_ws(s.last()),
    ensures
        words(s).len() > 0,
    decreases s.len(),
{
    if s.len() >= 2 && !is_ws(s[s.len() - 2]) {
        assert(s.drop_last().last() == s[s.len() - 2]);
        lemma_words_nonempty(s.drop_last());
    }
}

proof fn lemma_words_nonempty_items(s: Seq<char>)
    ensures
        forall|k: int| 0 <= k < words(s).len() ==> words(s)[k].len() > 0,
    decreases s.len(),
{
    if s.len() > 0 {
        lemma_words_nonempty_items(s.drop_last());
        if !is_ws(s.last()) && s.len() >= 2 && !is_ws(s[s.len() - 2]) {
            assert(s.drop_last().last() == s[s.len() - 2]);
            lemma_words_nonempty(s.drop_last());
        }
    }
}

proof fn lemma_join_extend_last(w: Seq<Seq<char>>, sep: Seq<char>, c: char)
    requires
        w.len() > 0,
    ensures
        join(w.update(w.len() - 1, w.last().push(c)), sep) == join(w, sep).push(c),
{
    let u = w.update(w.len() - 1, w.last().push(c));
    if w.len() >= 2 {
        assert(u.drop_last() =~= w.drop_last());
    }
}

/// `s.split_whitespace().collect::<Vec<_>>().join(" ")`.
pub fn collapse_whitespace(s: &str) -> (r: String)
    ensures
        r@ == join(words(s@), " "@),
{
    proof {
        reveal_strlit(" ");
    }
    let v = crate::text::chars_of(s);
    let mut out = String::new();
    let mut i: usize = 0;
    while i < v.len()
        invariant
            i <= v.len(),
            v@ == s@,
            out@ == join(words(v@.take(i as int)), " "@),
            " "@ == seq![' '],
        decreases v.len() - i,
    {
        let c = v[i];
        let ghost t = v@.take(i + 1);
        assert(t.drop_last() =~= v@.take(i as int));
        assert(t.last() == c);
        let ws = crate::text::char_is_ws(c);
        if !ws {
            if i > 0 && !crate::text::char_is_ws(v[i - 1]) {
                proof {
                    assert(t[t.len() - 2] == v@[i - 1]);
                    let p = v@.take(i as int);
                    assert(p.last() == v@[i - 1]);
                    lemma_words_nonempty(p);
                    lemma_join_extend_last(words(p), " "@, c);
                }
                push_char(&mut out, c);
            } else {
                proof {
                    let p = v@.take(i as int);
                    if i > 0 {
                        assert(t[t.len() - 2] == v@[i - 1]);
                    }
                }
                if !out.as_str().is_empty() {
                    proof {
                        let w = words(v@.take(i as int));
                        if w.len() == 0 {
                            assert(join(w, " "@) == Seq::<char>::empty());
                            assert(false);
                        }
                        lemma_join_push(w, " "@, seq![c]);
                    }
                    push_char(&mut out, ' ');
                    push_char(&mut out, c);
                    assert(out@ =~= join(words(v@.take(i as int)), " "@) + " "@ + seq![c]);
                } else {
                    proof {
                        let w = words(v@.take(i as int));
                        lemma_words_nonempty_items(v@.take(i as int));
                        lemma_words_empty_join(w);
                        assert(w.push(seq![c]) =~= seq![seq![c]]);
                    }
                    push_char(&mut out, c);
                    assert(out@ =~= seq![c]);
                }
            }
        }
        i += 1;
    }
    assert(v@.take(v.len() as int) =~= v@);
    out
}

proof fn lemma_words_empty_join(w: Seq<Seq<char>>)
    requires
        join(w, " "@) == Seq::<char>::empty(),
        forall|k: int| 0 <= k < w.len() ==> w[k].len() > 0,
    ensures
        w.len() == 0,
{
    if w.len() == 1 {
        assert(join(w, " "@) == w[0]);
    } else if w.len() >= 2 {
        reveal_strlit(" ");
        assert(join(w, " "@) == join(w.drop_last(), " "@) + " "@ + w.last());
    }
}

// ---------------------------------------------------------------------------
// Text extraction and truncation
// ---------------------------------------------------------------------------
/// The text of a page: scripts, styles and tags replaced by spaces, then
/// whitespace runs collapsed to single spaces.
pub open spec fn page_text(html: Seq<char>) -> Seq<char> {
    let a = regex_replace_all(SCRIPT_PATTERN@, html, " "@);
    let b = regex_replace_all(STYLE_PATTERN@, a, " "@);
    let c = regex_replace_all(TAG_PATTERN@, b, " "@);
    join(words(c), " "@)
}

/// How a page becomes text: first every script element
/// (`<script[^>]*>.*?</script>`), then every style element
/// (`<style[^>]*>.*?</style>`), then every remaining tag (`<[^>]+>`) is
/// replaced by a space, so that no script or style block reaches the tag
/// step; what is left is split at whitespace and joined by single spaces.
pub proof fn law_page_text_strips_scripts_styles_then_tags(html: Seq<char>)
    ensures
        SCRIPT_PATTERN@ == "<script[^>]*>.*?</script>"@,
        STYLE_PATTERN@ == "<style[^>]*>.*?</style>"@,
        TAG_PATTERN@ == "<[^>]+>"@,
        page_text(html) == join(
            words(
                regex_replace_all(
                    "<[^>]+>"@,
                    regex_replace_all(
                        "<style[^>]*>.*?</style>"@,
                        regex_replace_all("<script[^>]*>.*?</script>"@, html, " "@),
                        " "@,
                    ),
                    " "@,
                ),
            ),
            " "@,
        ),
{
}

/// Content no longer than the limit is handed back whole; longer content
/// keeps exactly its first `max_len` characters, followed by
/// `...` and a note `[Truncated at {max_len} characters]` on a line of its
/// own after a blank line.
pub proof fn law_truncation_keeps_first_characters(content: Seq<char>, max_len: nat)
    ensures
        content.len() <= max_len ==> truncated_spec(content, max_len) == content,
        content.len() > max_len ==> truncated_spec(content, max_len) == content.take(max_len as int)
            + "...\n\n[Truncated at "@ + nat_text(max_len) + " characters]"@,
        content.len() > max_len ==> truncated_spec(content, max_len).take(max_len as int) == content.take(
            max_len as int,
        ),
{
    if content.len() > max_len {
        let t = truncated_spec(content, max_len);
        assert(content.subrange(0, max_len as int) =~= content.take(max_len as int));
        assert(t.take(max_len as int) =~= content.take(max_len as int));
    }
}

/// The content of a fetched page: with a selector, the texts of the
/// matching elements one per line, or the selector's error when it does not
/// parse; without one, the text of the whole page.
pub proof fn law_content_of_a_page(sel: String, body: Seq<char>)
    ensures
        fetched_content(None, body) is Ok,
        fetched_content(None, body)->Ok_0 == page_text(body),
        css_select_texts(body, sel@) is Some ==> fetched_content(Some(sel), body) is Ok && fetched_content(
            Some(sel),
            body,
        )->Ok_0 == join(css_select_texts(body, sel@).unwrap(), "\n"@),
        css_select_texts(body, sel@) is None ==> fetched_content(Some(sel), body) is Err && fetched_content(
            Some(sel),
            body,
        )->Err_0 == css_selector_error(sel@),
{
}

/// The text of a page (see [`page_text`]).
pub fn extract_text(html: &str) -> (r: String)
    ensures
        r@ == page_text(html@),
{
    let a = replace_pattern(SCRIPT_PATTERN, html, " ");
    let b = replace_pattern(STYLE_PATTERN, a.as_str(), " ");
    let c = replace_pattern(TAG_PATTERN, b.as_str(), " ");
    collapse_whitespace(c.as_str())
}

/// Error of the tool.
#[derive(Debug, Clone, PartialEq, Eq)]
pub enum WebFetchError {
    /// The URL does not parse.
    InvalidUrl,
    /// The CSS selector does not parse; the parser's explanation.
    InvalidSelector(String),
}

impl WebFetchError {
    /// The error message.
    pub fn message(&self) -> (r: String)
        ensures
            r@ == match self {
                WebFetchError::InvalidUrl => "Invalid URL"@,
                WebFetchError::InvalidSelector(e) => "Invalid CSS selector: "@ + e@,
            },
    {
        match self {
            WebFetchError::InvalidUrl => owned("Invalid URL"),
            WebFetchError::InvalidSelector(e) => {
                let mut m = owned("Invalid CSS selector: ");
                push_str(&mut m, e.as_str());
                m
            },
        }
    }
}

/// Texts of the elements that `selector` matches, one per line.
pub fn extract_with_selector(html: &str, selector: &str) -> (r: Result<String, WebFetchError>)
    ensures
        match css_select_texts(html@, selector@) {
            Some(texts) => r matches Ok(t) && t@ == join(texts, "\n"@),
            None => r matches Err(WebFetchError::InvalidSelector(e)) && e@ == css_selector_error(
                selector@,
            ),
        },
{
    match select_texts(html, selector) {
        Ok(texts) => Ok(join_strings(&texts, "\n")),
        Err(e) => Err(WebFetchError::InvalidSelector(e)),
    }
}

/// Content cut to its first `max_len` characters, with a note of the cut,
/// when it is longer than that.
pub open spec fn truncated_spec(content: Seq<char>, max_len: nat) -> Seq<char> {
    if content.len() > max_len {
        content.subrange(0, max_len as int) + "...\n\n[Truncated at "@ + nat_text(max_len)
            + " characters]"@
    } else {
        content
    }
}

/// Cuts content longer than `max_len` characters to its first `max_len`
/// characters and notes the cut.
pub fn truncate_content(content: String, max_len: usize) -> (r: String)
    ensures
        r@ == truncated_spec(content@, max_len as nat),
{
    let chars = chars_of(content.as_str());
    if chars.len() > max_len {
        let mut r = string_from_range(&chars, 0, max_len);
        push_str(&mut r, "...\n\n[Truncated at ");
        push_str(&mut r, u64_to_string(max_len as u64).as_str());
        push_str(&mut r, " characters]");
        r
    } else {
        content
    }
}

/// A checked request of the tool.
#[derive(Debug, Clone)]
pub struct FetchRequest {
    /// The URL as the caller wrote it.
    pub url: String,
    /// The URL as the parser serialises it; this is what is fetched.
    pub target: String,
    /// CSS selector of the content to keep.
    pub selector: Option<String>,
    /// Longest content handed back, in characters.
    pub max_len: usize,
}

/// Arguments of the tool.
#[derive(Debug, Clone)]
pub struct WebFetchParams {
    /// URL to fetch.
    pub url: String,
    /// CSS selector of the content to keep.
    pub selector: Option<String>,
    /// Longest content handed back; zero means the tool's own limit.
    pub max_length: usize,
}

/// The built-in web-fetch tool.
#[derive(Debug, Clone, Copy)]
pub struct WebFetchTool {
    /// Longest content handed back when a call does not say.
    pub max_length: usize,
}

/// Whether an HTTP status code is a success (`StatusCode::is_success`).
pub open spec fn status_success(code: u16) -> bool {
    200 <= code <= 299
}

impl WebFetchTool {
    /// The tool with the given settings.
    pub fn new(config: WebFetchConfig) -> (r: Self)
        ensures
            r.max_length == config.max_length,
    {
        WebFetchTool { max_length: config.max_length }
    }

    /// Checks the arguments: the URL must parse. The limit is the call's own
    /// when positive, the tool's otherwise.
    pub fn prepare(&self, params: &WebFetchParams) -> (r: Result<FetchRequest, WebFetchError>)
        ensures
            url_parse(params.url@) is None <==> r is Err,
            r matches Err(e) ==> e == WebFetchError::InvalidUrl,
            r matches Ok(q) ==> {
                &&& Some(q.target@) == url_parse(params.url@)
                &&& q.url@ == params.url@
                &&& opt_view(q.selector) == opt_view(params.selector)
                &&& q.max_len == if params.max_length > 0 {
                    params.max_length
                } else {
                    self.max_length
                }
            },
    {
        match parse_url(params.url.as_str()) {
            None => Err(WebFetchError::InvalidUrl),
            Some(target) => {
                let max_len = if params.max_length > 0 {
                    params.max_length
                } else {
                    self.max_length
                };
                let selector = match &params.selector {
                    Some(s) => Some(s.clone()),
                    None => None,
                };
                Ok(FetchRequest { url: params.url.clone(), target, selector, max_len })
            },
        }
    }

    /// Turns the response into the tool's result: an HTTP error names the
    /// status and the URL; a page becomes its text (or the text of the
    /// selected elements), cut to the request's limit.
    pub fn finish(request: &FetchRequest, status_code: u16, status_text: &str, body: &str) -> (r:
        Result<ToolResult, WebFetchError>)
        ensures
            !status_success(status_code) ==> (r matches Ok(res) && !res.success && res.content@
                == Seq::<char>::empty() && error_is(res.error, "HTTP "@ + status_text@ + ": "@ + request.url@)),
            status_success(status_code) ==> match fetched_content(request.selector, body@) {
                Ok(c) => (r matches Ok(res) && res.success && res.error is None && res.content@
                    == truncated_spec(c, request.max_len as nat)),
                Err(e) => (r matches Err(WebFetchError::InvalidSelector(m)) && m@ == e),
            },
    {
        if !(200 <= status_code && status_code <= 299) {
            let mut m = owned("HTTP ");
            push_str(&mut m, status_text);
            push_str(&mut m, ": ");
            push_str(&mut m, request.url.as_str());
            return Ok(ToolResult::failed(m));
        }
        let content = match &request.selector {
            Some(sel) => match select_texts(body, sel.as_str()) {
                Ok(texts) => join_strings(&texts, "\n"),
                Err(e) => {
                    return Err(WebFetchError::InvalidSelector(e));
                },
            },
            None => extract_text(body),
        };
        Ok(ToolResult::ok(truncate_content(content, request.max_len)))
    }
}

/// The error of a result is `text`.
pub open spec fn error_is(e: Option<String>, text: Seq<char>) -> bool {
    e matches Some(x) && x@ == text
}

/// The content of a page: the text of the selected elements, one per line,
/// or the whole page's text; the selector's error when it does not parse.
pub open spec fn fetched_content(selector: Option<String>, body: Seq<char>) -> Result<Seq<char>, Seq<char>> {
    match selector {
        Some(sel) => match css_select_texts(body, sel@) {
            Some(texts) => Ok(join(texts, "\n"@)),
            None => Err(css_selector_error(sel@)),
        },
        None => Ok(page_text(body)),
    }
}

} // verus!
