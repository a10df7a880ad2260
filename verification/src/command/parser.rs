//! Command parsing: prefix detection and quote-aware tokenisation.

use vstd::prelude::*;

use crate::text::{
    char_is_ascii_ws, chars_of, is_ascii_ws, is_ws, join, matches_at, skip_ws, skip_ws_from, starts_with,
    string_from_range, strs, trim, trim_bounds, trim_end_from, trim_start,
};

verus! {

/// A quote character that opens a quoted argument.
pub open spec fn is_quote(c: char) -> bool {
    c == '"' || c == '\''
}

/// Index of the first `c` at or after `i`, or `s.len()`.
pub open spec fn find_char_from(s: Seq<char>, i: int, c: char) -> int
    decreases s.len() - i,
{
    if i >= s.len() {
        s.len() as int
    } else if s[i] == c {
        i
    } else {
        find_char_from(s, i + 1, c)
    }
}

/// Index of the first ASCII whitespace at or after `i`, or `s.len()`.
pub open spec fn find_ascii_ws_from(s: Seq<char>, i: int) -> int
    decreases s.len() - i,
{
    if i >= s.len() {
        s.len() as int
    } else if is_ascii_ws(s[i]) {
        i
    } else {
        find_ascii_ws_from(s, i + 1)
    }
}

pub proof fn lemma_find_char_from(s: Seq<char>, i: int, c: char)
    requires
        0 <= i <= s.len(),
    ensures
        i <= find_char_from(s, i, c) <= s.len(),
        forall|k: int| i <= k < find_char_from(s, i, c) ==> #[trigger] s[k] != c,
        find_char_from(s, i, c) < s.len() ==> s[find_char_from(s, i, c)] == c,
    decreases s.len() - i,
{
    if i < s.len() && s[i] != c {
        lemma_find_char_from(s, i + 1, c);
    }
}

pub proof fn lemma_find_ascii_ws_from(s: Seq<char>, i: int)
    requires
        0 <= i <= s.len(),
    ensures
        i <= find_ascii_ws_from(s, i) <= s.len(),
        forall|k: int| i <= k < find_ascii_ws_from(s, i) ==> !is_ascii_ws(#[trigger] s[k]),
        find_ascii_ws_from(s, i) < s.len() ==> is_ascii_ws(s[find_ascii_ws_from(s, i)]),
    decreases s.len() - i,
{
    if i < s.len() && !is_ascii_ws(s[i]) {
        lemma_find_ascii_ws_from(s, i + 1);
    }
}

/// The tokens of `s[i..]`: arguments are separated by ASCII whitespace; a
/// single or double quote starts an argument that runs to the matching
/// quote (kept verbatim, whitespace included) or to the end of the text
/// when the quote is never closed.
pub open spec fn tokens_from(s: Seq<char>, i: int) -> Seq<Seq<char>>
    decreases s.len() - i,
{
    if i < 0 || i >= s.len() {
        Seq::empty()
    } else if is_ascii_ws(s[i]) {
        tokens_from(s, i + 1)
    } else if is_quote(s[i]) {
        let j = find_char_from(s, i + 1, s[i]);
        proof {
            lemma_find_char_from(s, i + 1, s[i]);
        }
        if j < s.len() {
            seq![s.subrange(i + 1, j)] + tokens_from(s, j + 1)
        } else {
            seq![s.subrange(i + 1, s.len() as int)]
        }
    } else {
        let j = find_ascii_ws_from(s, i);
        proof {
            lemma_find_ascii_ws_from(s, i);
        }
        seq![s.subrange(i, j)] + tokens_from(s, j)
    }
}

/// The text after the prefix of a trimmed message, with leading whitespace removed.
pub open spec fn command_body(prefix: Seq<char>, msg: Seq<char>) -> Seq<char> {
    trim_start(trim(msg).skip(prefix.len() as int))
}

/// What [`Parser::parse`] returns: `None` unless the trimmed message starts
/// with the prefix and something other than whitespace follows it;
/// otherwise the first token is the command and the rest are its arguments.
pub open spec fn parse_spec(prefix: Seq<char>, msg: Seq<char>) -> Option<(Seq<char>, Seq<Seq<char>>)> {
    if !starts_with(trim(msg), prefix) || command_body(prefix, msg).len() == 0 || tokens_from(
        command_body(prefix, msg),
        0,
    ).len() == 0 {
        None
    } else {
        Some(
            (
                tokens_from(command_body(prefix, msg), 0)[0],
                tokens_from(command_body(prefix, msg), 0).drop_first(),
            ),
        )
    }
}

/// A parsed command: the command name (without prefix) and its arguments.
///
/// The first argument can serve as a sub-command, e.g. `!bot name x` gives
/// `cmd == "bot"` and `args == ["name", "x"]`.
#[derive(Debug, Clone)]
pub struct ParsedCommand {
    /// Command name, without the prefix.
    pub cmd: String,
    /// Arguments; quoted arguments keep their inner whitespace.
    pub args: Vec<String>,
}

impl ParsedCommand {
    pub open spec fn view(&self) -> (Seq<char>, Seq<Seq<char>>) {
        (self.cmd@, strs(self.args@))
    }
}

/// Command parser: recognises a configurable prefix and splits the rest
/// of the message into a command and its arguments.
#[derive(Debug, Clone)]
pub struct Parser {
    prefix: String,
}

impl Parser {
    /// The configured prefix.
    pub closed spec fn prefix_view(&self) -> Seq<char> {
        self.prefix@
    }

    /// Creates a parser for the given prefix, such as `"!"` or `"!ai "`.
    pub fn new(prefix: String) -> (r: Self)
        ensures
            r.prefix_view() == prefix@,
    {
        Parser { prefix }
    }

    /// The current prefix.
    pub fn prefix(&self) -> (r: &str)
        ensures
            r@ == self.prefix_view(),
    {
        self.prefix.as_str()
    }

    /// Replaces the prefix.
    pub fn set_prefix(&mut self, prefix: String)
        ensures
            final(self).prefix_view() == prefix@,
    {
        self.prefix = prefix;
    }

    /// Splits the text into tokens: see [`tokens_from`].
    pub fn tokenize(input: &str) -> (r: Vec<String>)
        ensures
            strs(r@) == tokens_from(input@, 0),
    {
        let v = chars_of(input);
        tokenize_chars(&v)
    }

    /// Parses a message into a command and its arguments (see [`parse_spec`]).
    pub fn parse(&self, msg: &str) -> (r: Option<ParsedCommand>)
        ensures
            r is None <==> parse_spec(self.prefix_view(), msg@) is None,
            r matches Some(p) ==> parse_spec(self.prefix_view(), msg@) == Some(p.view()),
    {
        let v = chars_of(msg);
        let (a, b) = trim_bounds(&v);
        let m = sub_chars(&v, a, b);
        let p = chars_of(self.prefix.as_str());
        if !matches_at(&m, 0, &p) {
            proof {
                assert(m@.skip(0) =~= m@);
            }
            return None;
        }
        proof {
            assert(m@.skip(0) =~= m@);
        }
        let rest = sub_chars(&m, p.len(), m.len());
        let k = skip_ws(&rest, 0);
        let body = sub_chars(&rest, k, rest.len());
        proof {
            assert(rest@ =~= trim(msg@).skip(p@.len() as int));
            assert(body@ =~= command_body(self.prefix_view(), msg@));
        }
        if body.len() == 0 {
            return None;
        }
        let mut tokens = tokenize_chars(&body);
        if tokens.len() == 0 {
            return None;
        }
        let cmd = tokens.remove(0);
        proof {
            assert(strs(tokens@) =~= tokens_from(body@, 0).drop_first());
        }
        Some(ParsedCommand { cmd, args: tokens })
    }

    /// Whether the trimmed message starts with the prefix.
    pub fn is_command(&self, msg: &str) -> (r: bool)
        ensures
            r == starts_with(trim(msg@), self.prefix_view()),
    {
        let v = chars_of(msg);
        let (a, b) = trim_bounds(&v);
        let m = sub_chars(&v, a, b);
        let p = chars_of(self.prefix.as_str());
        proof {
            assert(m@.skip(0) =~= m@);
        }
        matches_at(&m, 0, &p)
    }
}

/// A parsed message is always recognised as a command.
pub proof fn law_parsed_message_is_command(prefix: Seq<char>, msg: Seq<char>)
    ensures
        parse_spec(prefix, msg) is Some ==> starts_with(trim(msg), prefix),
{
}

/// Copy of `v[from..to]`.
pub fn sub_chars(v: &Vec<char>, from: usize, to: usize) -> (r: Vec<char>)
    requires
        from <= to <= v.len(),
    ensures
        r@ == v@.subrange(from as int, to as int),
{
    let mut r: Vec<char> = Vec::new();
    let mut i = from;
    while i < to
        invariant
            from <= i <= to <= v.len(),
            r@ == v@.subrange(from as int, i as int),
        decreases to - i,
    {
        r.push(v[i]);
        assert(v@.subrange(from as int, i + 1) =~= v@.subrange(from as int, i as int).push(
            v@[i as int],
        ));
        i += 1;
    }
    r
}

/// First index at or after `from` holding `c`, or `v.len()`.
fn find_char(v: &Vec<char>, from: usize, c: char) -> (r: usize)
    requires
        from <= v.len(),
    ensures
        r == find_char_from(v@, from as int, c),
{
    let mut j = from;
    while j < v.len() && v[j] != c
        invariant
            from <= j <= v.len(),
            forall|k: int| from <= k < j ==> #[trigger] v@[k] != c,
            find_char_from(v@, j as int, c) == find_char_from(v@, from as int, c),
        decreases v.len() - j,
    {
        j += 1;
    }
    j
}

/// First index at or after `from` holding ASCII whitespace, or `v.len()`.
fn find_ascii_ws(v: &Vec<char>, from: usize) -> (r: usize)
    requires
        from <= v.len(),
    ensures
        r == find_ascii_ws_from(v@, from as int),
{
    let mut j = from;
    while j < v.len() && !char_is_ascii_ws(v[j])
        invariant
            from <= j <= v.len(),
            find_ascii_ws_from(v@, j as int) == find_ascii_ws_from(v@, from as int),
        decreases v.len() - j,
    {
        j += 1;
    }
    j
}

/// Tokens of the whole character vector.
pub fn tokenize_chars(v: &Vec<char>) -> (r: Vec<String>)
    ensures
        strs(r@) == tokens_from(v@, 0),
{
    let mut tokens: Vec<String> = Vec::new();
    let mut i: usize = 0;
    while i < v.len()
        invariant
            i <= v.len(),
            strs(tokens@) + tokens_from(v@, i as int) == tokens_from(v@, 0),
        decreases v.len() - i,
    {
        let c = v[i];
        let ghost before = strs(tokens@);
        if char_is_ascii_ws(c) {
            i += 1;
        } else if c == '"' || c == '\'' {
            let j = find_char(v, i + 1, c);
            proof {
                lemma_find_char_from(v@, i + 1, c);
            }
            if j < v.len() {
                let t = string_from_range(v, i + 1, j);
                tokens.push(t);
                proof {
                    assert(strs(tokens@) =~= before.push(v@.subrange(i + 1, j as int)));
                    assert(before.push(v@.subrange(i + 1, j as int)) + tokens_from(v@, j + 1) =~=
                        before + (seq![v@.subrange(i + 1, j as int)] + tokens_from(v@, j + 1)));
                }
                i = j + 1;
            } else {
                let t = string_from_range(v, i + 1, v.len());
                tokens.push(t);
                proof {
                    assert(strs(tokens@) =~= before.push(v@.subrange(i + 1, v@.len() as int)));
                    assert(before.push(v@.subrange(i + 1, v@.len() as int)) + tokens_from(
                        v@,
                        v@.len() as int,
                    ) =~= before + seq![v@.subrange(i + 1, v@.len() as int)]);
                }
                i = v.len();
            }
        } else {
            let j = find_ascii_ws(v, i);
            proof {
                lemma_find_ascii_ws_from(v@, i as int);
            }
            let t = string_from_range(v, i, j);
            tokens.push(t);
            proof {
                assert(strs(tokens@) =~= before.push(v@.subrange(i as int, j as int)));
                assert(before.push(v@.subrange(i as int, j as int)) + tokens_from(v@, j as int)
                    =~= before + (seq![v@.subrange(i as int, j as int)] + tokens_from(
                    v@,
                    j as int,
                )));
            }
            i = j;
        }
    }
    proof {
        assert(strs(tokens@) + Seq::<Seq<char>>::empty() =~= strs(tokens@));
    }
    tokens
}

/// A word that the tokenizer gives back unchanged: not empty, without
/// whitespace, and not opening a quote.
pub open spec fn plain_word(w: Seq<char>) -> bool {
    &&& w.len() > 0
    &&& forall|k: int| 0 <= k < w.len() ==> !is_ws(#[trigger] w[k])
    &&& !is_quote(w[0])
}

proof fn lemma_ascii_ws_is_ws(c: char)
    ensures
        is_ascii_ws(c) ==> is_ws(c),
{
}

proof fn lemma_find_ascii_ws_shift(a: Seq<char>, b: Seq<char>, j: int)
    requires
        0 <= j <= b.len(),
    ensures
        find_ascii_ws_from(a + b, a.len() + j) == a.len() + find_ascii_ws_from(b, j),
    decreases b.len() - j,
{
    if j < b.len() {
        assert((a + b)[a.len() + j] == b[j]);
        if !is_ascii_ws(b[j]) {
            lemma_find_ascii_ws_shift(a, b, j + 1);
        }
    }
}

proof fn lemma_find_char_shift(a: Seq<char>, b: Seq<char>, j: int, c: char)
    requires
        0 <= j <= b.len(),
    ensures
        find_char_from(a + b, a.len() + j, c) == a.len() + find_char_from(b, j, c),
    decreases b.len() - j,
{
    if j < b.len() {
        assert((a + b)[a.len() + j] == b[j]);
        if b[j] != c {
            lemma_find_char_shift(a, b, j + 1, c);
        }
    }
}

/// Tokenising from a position only looks at the text from there on.
proof fn lemma_tokens_shift(a: Seq<char>, b: Seq<char>, j: int)
    requires
        0 <= j <= b.len(),
    ensures
        tokens_from(a + b, a.len() + j) == tokens_from(b, j),
    decreases b.len() - j,
{
    let s = a + b;
    let i = a.len() + j;
    if j < b.len() {
        assert(s[i] == b[j]);
        if is_ascii_ws(b[j]) {
            lemma_tokens_shift(a, b, j + 1);
        } else if is_quote(b[j]) {
            lemma_find_char_shift(a, b, j + 1, b[j]);
            lemma_find_char_from(b, j + 1, b[j]);
            let k = find_char_from(b, j + 1, b[j]);
            assert(s.subrange(i + 1, a.len() + k) =~= b.subrange(j + 1, k));
            assert(s.subrange(i + 1, s.len() as int) =~= b.subrange(j + 1, b.len() as int));
            if k < b.len() {
                lemma_tokens_shift(a, b, k + 1);
            }
        } else {
            lemma_find_ascii_ws_shift(a, b, j);
            lemma_find_ascii_ws_from(b, j);
            let k = find_ascii_ws_from(b, j);
            assert(s.subrange(i, a.len() + k) =~= b.subrange(j, k));
            lemma_tokens_shift(a, b, k);
        }
    }
}

/// The end of a plain word followed by whitespace or nothing is found where
/// the word ends.
proof fn lemma_word_end(w: Seq<char>, t: Seq<char>, i: int)
    requires
        plain_word(w),
        0 <= i <= w.len(),
        t.len() == 0 || is_ascii_ws(t[0]),
    ensures
        find_ascii_ws_from(w + t, i) == w.len(),
    decreases w.len() - i,
{
    let s = w + t;
    if i < w.len() {
        assert(s[i] == w[i]);
        lemma_ascii_ws_is_ws(w[i]);
        lemma_word_end(w, t, i + 1);
    } else if t.len() > 0 {
        assert(s[i] == t[0]);
    }
}

/// Joining puts the first piece in front.
proof fn lemma_join_front(ws: Seq<Seq<char>>, sep: Seq<char>)
    requires
        ws.len() >= 2,
    ensures
        join(ws, sep) == ws[0] + (sep + join(ws.drop_first(), sep)),
    decreases ws.len(),
{
    if ws.len() == 2 {
        let init = ws.drop_last();
        let tail = ws.drop_first();
        assert(init.len() == 1 && init[0] == ws[0]);
        assert(join(init, sep) == ws[0]);
        assert(tail.len() == 1 && tail[0] == ws[1]);
        assert(join(tail, sep) == ws[1]);
        assert(ws.last() == ws[1]);
        assert(join(ws, sep) == join(init, sep) + sep + ws.last());
        assert(join(ws, sep) =~= ws[0] + (sep + join(tail, sep)));
    } else {
        let init = ws.drop_last();
        let tail = ws.drop_first();
        lemma_join_front(init, sep);
        assert(init.drop_first() =~= tail.drop_last());
        assert(tail.last() == ws.last());
        assert(init[0] == ws[0]);
        let mid = join(tail.drop_last(), sep);
        assert(join(ws, sep) == join(init, sep) + sep + ws.last());
        assert(join(init, sep) == ws[0] + (sep + mid));
        assert(join(tail, sep) == mid + sep + ws.last());
        assert(join(ws, sep) =~= ws[0] + (sep + join(tail, sep)));
    }
}

/// Plain words joined by single spaces tokenise back to the same words.
proof fn lemma_tokens_of_joined(ws: Seq<Seq<char>>)
    requires
        forall|k: int| 0 <= k < ws.len() ==> plain_word(#[trigger] ws[k]),
    ensures
        tokens_from(join(ws, seq![' ']), 0) == ws,
        ws.len() > 0 ==> join(ws, seq![' ']).len() > 0 && join(ws, seq![' '])[0] == ws[0][0],
        ws.len() > 0 ==> join(ws, seq![' ']).last() == ws.last().last(),
    decreases ws.len(),
{
    let sp = seq![' '];
    if ws.len() == 0 {
        assert(tokens_from(Seq::<char>::empty(), 0) =~= ws);
    } else {
        let w = ws[0];
        assert(plain_word(w));
        lemma_ascii_ws_is_ws(w[0]);
        if ws.len() == 1 {
            let s = join(ws, sp);
            assert(s == w);
            lemma_word_end(w, Seq::<char>::empty(), 0);
            assert(w + Seq::<char>::empty() =~= w);
            assert(s.subrange(0, w.len() as int) =~= w);
            assert(tokens_from(s, w.len() as int) =~= Seq::<Seq<char>>::empty());
            assert(tokens_from(s, 0) =~= ws);
        } else {
            let rest = ws.drop_first();
            assert forall|k: int| 0 <= k < rest.len() implies plain_word(#[trigger] rest[k]) by {
                assert(rest[k] == ws[k + 1]);
            }
            lemma_tokens_of_joined(rest);
            lemma_join_front(ws, sp);
            let t = sp + join(rest, sp);
            let s = join(ws, sp);
            assert(s == w + t);
            assert(t[0] == ' ');
            lemma_word_end(w, t, 0);
            assert(s[0] == w[0]);
            assert(s.subrange(0, w.len() as int) =~= w);
            // After the word comes the space, then the rest.
            lemma_tokens_shift(w, t, 0);
            assert(w + t == s);
            assert(tokens_from(s, w.len() as int) == tokens_from(t, 0));
            assert(t == sp + join(rest, sp));
            lemma_tokens_shift(sp, join(rest, sp), 0);
            assert(tokens_from(t, 0) == tokens_from(t, 1));
            assert(tokens_from(t, 1) == tokens_from(join(rest, sp), 0));
            assert(tokens_from(s, 0) =~= seq![w] + rest);
            assert(seq![w] + rest =~= ws);
            assert(rest.last() == ws.last());
            assert(s.last() == join(rest, sp).last());
        }
    }
}

/// A command written as the prefix, then its name and arguments separated
/// by single spaces, parses back to that name and those arguments, when
/// the prefix starts with a non-whitespace character and every word is
/// plain (not empty, no whitespace, not opening a quote).
pub proof fn law_written_command_parses_back(prefix: Seq<char>, ws: Seq<Seq<char>>)
    requires
        prefix.len() > 0,
        !is_ws(prefix[0]),
        ws.len() > 0,
        forall|k: int| 0 <= k < ws.len() ==> plain_word(#[trigger] ws[k]),
    ensures
        parse_spec(prefix, prefix + join(ws, seq![' '])) == Some((ws[0], ws.drop_first())),
{
    let sp = seq![' '];
    let body = join(ws, sp);
    let msg = prefix + body;
    lemma_tokens_of_joined(ws);
    assert(plain_word(ws[0]));
    assert(plain_word(ws.last()));
    assert(!is_ws(ws.last().last()));
    assert(msg[0] == prefix[0]);
    assert(msg.last() == body.last());
    assert(skip_ws_from(msg, 0) == 0);
    assert(msg.skip(0) =~= msg);
    assert(trim_start(msg) == msg);
    assert(trim_end_from(msg, msg.len() as int) == msg.len());
    assert(msg.take(msg.len() as int) =~= msg);
    assert(trim(msg) == msg);
    assert(msg.take(prefix.len() as int) =~= prefix);
    assert(starts_with(trim(msg), prefix));
    assert(msg.skip(prefix.len() as int) =~= body);
    assert(skip_ws_from(body, 0) == 0);
    assert(body.skip(0) =~= body);
    assert(command_body(prefix, msg) == body);
}

} // verus!
