//! HTML message templates for Matrix clients (Element).
//!
//! The templates use structural tags (`<h3>`, `<blockquote>`, `<table>`,
//! `<code>`, `<font color>`) and no `style=` attributes.

use vstd::prelude::*;

use crate::text::{concat_all, push_str};

verus! {

/// Title text colour.
pub const TITLE: &'static str = "#3164f0ff";
/// Accent (icon) colour.
pub const ACCENT: &'static str = "#6ea8ff";
/// Key and table-header colour.
pub const KEY: &'static str = "#6a7fa8";
/// Value colour.
pub const VALUE: &'static str = "#c8d4f0";
/// Secondary text colour.
pub const DIM: &'static str = "#4a5a78";
/// Success colour.
pub const SUCCESS: &'static str = "#48bb78";
/// Error colour.
pub const ERROR: &'static str = "#f06070";
/// Warning colour.
pub const WARNING: &'static str = "#f0c060";

/// `<font color="{color}">{s}</font>`
pub open spec fn fc_spec(color: Seq<char>, s: Seq<char>) -> Seq<char> {
    "<font color=\""@ + color + "\">"@ + s + "</font>"@
}

/// `<b>{s}</b>`
pub open spec fn bold_spec(s: Seq<char>) -> Seq<char> {
    "<b>"@ + s + "</b>"@
}

/// `<code>{s}</code>`
pub open spec fn code_spec(s: Seq<char>) -> Seq<char> {
    "<code>"@ + s + "</code>"@
}

/// Heading of a card: an icon and a bold title.
pub open spec fn heading_spec(icon: Seq<char>, title: Seq<char>) -> Seq<char> {
    "<h3>"@ + fc_spec(ACCENT@, icon) + " "@ + bold_spec(fc_spec(TITLE@, title)) + "</h3>"@
}

/// A key/value row of an information card.
pub open spec fn info_row_spec(k: Seq<char>, v: Seq<char>) -> Seq<char> {
    "<tr><td>"@ + fc_spec(KEY@, k) + "</td><td>"@ + bold_spec(fc_spec(VALUE@, v)) + "</td></tr>"@
}

/// A command/description row of the help menu.
pub open spec fn help_row_spec(name: Seq<char>, desc: Seq<char>) -> Seq<char> {
    "<tr><td>"@ + code_spec(name) + "</td><td>"@ + fc_spec(DIM@, desc) + "</td></tr>"@
}

/// Views of a slice of string pairs.
pub open spec fn pairs_view(items: Seq<(&str, &str)>) -> Seq<(Seq<char>, Seq<char>)> {
    items.map_values(|p: (&str, &str)| (p.0@, p.1@))
}

pub open spec fn info_rows(items: Seq<(Seq<char>, Seq<char>)>) -> Seq<Seq<char>> {
    items.map_values(|p: (Seq<char>, Seq<char>)| info_row_spec(p.0, p.1))
}

pub open spec fn help_rows(items: Seq<(Seq<char>, Seq<char>)>) -> Seq<Seq<char>> {
    items.map_values(|p: (Seq<char>, Seq<char>)| help_row_spec(p.0, p.1))
}

/// An information card: a heading and a table of key/value rows.
pub open spec fn info_card_spec(title: Seq<char>, items: Seq<(Seq<char>, Seq<char>)>) -> Seq<char> {
    heading_spec("◈"@, title) + "<blockquote><table>"@ + concat_all(info_rows(items))
        + "</table></blockquote>"@
}

/// The help menu: a heading and a table of commands in code style.
pub open spec fn help_menu_spec(items: Seq<(Seq<char>, Seq<char>)>) -> Seq<char> {
    heading_spec("⌨"@, "命令帮助"@) + "<blockquote><table>"@ + concat_all(help_rows(items))
        + "</table></blockquote>"@
}

/// Kind of a status message.
#[derive(Debug, Clone, Copy, PartialEq, Eq, Structural)]
pub enum Status {
    /// Green check mark.
    Success,
    /// Red cross.
    Error,
    /// Yellow warning sign.
    Warning,
}

pub open spec fn status_icon(kind: Status) -> Seq<char> {
    match kind {
        Status::Success => "✓"@,
        Status::Error => "✕"@,
        Status::Warning => "⚠"@,
    }
}

pub open spec fn status_color(kind: Status) -> Seq<char> {
    match kind {
        Status::Success => SUCCESS@,
        Status::Error => ERROR@,
        Status::Warning => WARNING@,
    }
}

/// A status message: icon and text in the status colour, in bold, in a quote.
pub open spec fn status_spec(kind: Status, msg: Seq<char>) -> Seq<char> {
    "<blockquote>"@ + bold_spec(fc_spec(status_color(kind), status_icon(kind) + "  "@ + msg))
        + "</blockquote>"@
}

/// An information message in the accent colour.
pub open spec fn info_spec(msg: Seq<char>) -> Seq<char> {
    "<blockquote>"@ + bold_spec(fc_spec(ACCENT@, msg)) + "</blockquote>"@
}

pub open spec fn header_cells(headers: Seq<Seq<char>>) -> Seq<Seq<char>> {
    headers.map_values(|h: Seq<char>| "<th>"@ + fc_spec(KEY@, h) + "</th>"@)
}

pub open spec fn data_cells(row: Seq<Seq<char>>) -> Seq<Seq<char>> {
    row.map_values(|c: Seq<char>| "<td>"@ + bold_spec(fc_spec(VALUE@, c)) + "</td>"@)
}

pub open spec fn data_rows(rows: Seq<Seq<Seq<char>>>) -> Seq<Seq<char>> {
    rows.map_values(|row: Seq<Seq<char>>| "<tr>"@ + concat_all(data_cells(row)) + "</tr>"@)
}

/// A ranking table with a header row and data rows.
pub open spec fn leaderboard_spec(title: Seq<char>, headers: Seq<Seq<char>>, rows: Seq<Seq<Seq<char>>>) -> Seq<char> {
    heading_spec("🏆"@, title) + "<blockquote><table><thead><tr>"@ + concat_all(header_cells(headers))
        + "</tr></thead><tbody>"@ + concat_all(data_rows(rows)) + "</tbody></table></blockquote>"@
}

pub open spec fn strs_of(v: Seq<&str>) -> Seq<Seq<char>> {
    v.map_values(|s: &str| s@)
}

pub open spec fn rows_view(rows: Seq<Vec<&str>>) -> Seq<Seq<Seq<char>>> {
    rows.map_values(|r: Vec<&str>| strs_of(r@))
}

/// Appending one more piece extends a concatenation.
pub proof fn lemma_concat_all_push(pieces: Seq<Seq<char>>, i: int)
    requires
        0 <= i < pieces.len(),
    ensures
        concat_all(pieces.take(i + 1)) == concat_all(pieces.take(i)) + pieces[i],
{
    assert(pieces.take(i + 1).drop_last() =~= pieces.take(i));
}

/// `<font color="{color}">{s}</font>`
fn fc(color: &str, s: &str) -> (r: String)
    ensures
        r@ == fc_spec(color@, s@),
{
    let mut out = String::new();
    push_str(&mut out, "<font color=\"");
    push_str(&mut out, color);
    push_str(&mut out, "\">");
    push_str(&mut out, s);
    push_str(&mut out, "</font>");
    assert(out@ =~= fc_spec(color@, s@));
    out
}

/// `<b>{s}</b>`
fn bold(s: &str) -> (r: String)
    ensures
        r@ == bold_spec(s@),
{
    let mut out = String::new();
    push_str(&mut out, "<b>");
    push_str(&mut out, s);
    push_str(&mut out, "</b>");
    assert(out@ =~= bold_spec(s@));
    out
}

/// `<code>{s}</code>`
fn code(s: &str) -> (r: String)
    ensures
        r@ == code_spec(s@),
{
    let mut out = String::new();
    push_str(&mut out, "<code>");
    push_str(&mut out, s);
    push_str(&mut out, "</code>");
    assert(out@ =~= code_spec(s@));
    out
}

fn heading(icon: &str, title: &str) -> (r: String)
    ensures
        r@ == heading_spec(icon@, title@),
{
    let mut out = String::new();
    push_str(&mut out, "<h3>");
    let a = fc(ACCENT, icon);
    push_str(&mut out, a.as_str());
    push_str(&mut out, " ");
    let t = fc(TITLE, title);
    let b = bold(t.as_str());
    push_str(&mut out, b.as_str());
    push_str(&mut out, "</h3>");
    assert(out@ =~= heading_spec(icon@, title@));
    out
}

/// Template generator with card layouts built from structural tags.
pub struct GlassTemplate;

impl GlassTemplate {
    /// An information card with a title and key/value rows.
    pub fn info_card(title: &str, items: &[(&str, &str)]) -> (r: String)
        ensures
            r@ == info_card_spec(title@, pairs_view(items@)),
    {
        let mut out = heading("◈", title);
        push_str(&mut out, "<blockquote><table>");
        let ghost prefix = out@;
        let ghost rows = info_rows(pairs_view(items@));
        let mut i: usize = 0;
        while i < items.len()
            invariant
                i <= items.len(),
                rows == info_rows(pairs_view(items@)),
                rows.len() == items@.len(),
                out@ == prefix + concat_all(rows.take(i as int)),
            decreases items.len() - i,
        {
            let (k, v) = items[i];
            let mut row = String::new();
            push_str(&mut row, "<tr><td>");
            let fk = fc(KEY, k);
            push_str(&mut row, fk.as_str());
            push_str(&mut row, "</td><td>");
            let fv = fc(VALUE, v);
            let bv = bold(fv.as_str());
            push_str(&mut row, bv.as_str());
            push_str(&mut row, "</td></tr>");
            proof {
                assert(row@ =~= rows[i as int]);
                lemma_concat_all_push(rows, i as int);
            }
            push_str(&mut out, row.as_str());
            assert(out@ =~= prefix + concat_all(rows.take(i + 1)));
            i += 1;
        }
        assert(rows.take(items.len() as int) =~= rows);
        push_str(&mut out, "</table></blockquote>");
        assert(out@ =~= info_card_spec(title@, pairs_view(items@)));
        out
    }

    /// The help menu listing `(command, description)` pairs.
    pub fn help_menu(commands: &[(&str, &str)]) -> (r: String)
        ensures
            r@ == help_menu_spec(pairs_view(commands@)),
    {
        let mut out = heading("⌨", "命令帮助");
        push_str(&mut out, "<blockquote><table>");
        let ghost prefix = out@;
        let ghost rows = help_rows(pairs_view(commands@));
        let mut i: usize = 0;
        while i < commands.len()
            invariant
                i <= commands.len(),
                rows == help_rows(pairs_view(commands@)),
                rows.len() == commands@.len(),
                out@ == prefix + concat_all(rows.take(i as int)),
            decreases commands.len() - i,
        {
            let (name, desc) = commands[i];
            let mut row = String::new();
            push_str(&mut row, "<tr><td>");
            let c = code(name);
            push_str(&mut row, c.as_str());
            push_str(&mut row, "</td><td>");
            let d = fc(DIM, desc);
            push_str(&mut row, d.as_str());
            push_str(&mut row, "</td></tr>");
            proof {
                assert(row@ =~= rows[i as int]);
                lemma_concat_all_push(rows, i as int);
            }
            push_str(&mut out, row.as_str());
            assert(out@ =~= prefix + concat_all(rows.take(i + 1)));
            i += 1;
        }
        assert(rows.take(commands.len() as int) =~= rows);
        push_str(&mut out, "</table></blockquote>");
        assert(out@ =~= help_menu_spec(pairs_view(commands@)));
        out
    }

    /// A status message (success, error or warning).
    pub fn status(kind: Status, message: &str) -> (r: String)
        ensures
            r@ == status_spec(kind, message@),
    {
        let (icon, color) = match kind {
            Status::Success => ("✓", SUCCESS),
            Status::Error => ("✕", ERROR),
            Status::Warning => ("⚠", WARNING),
        };
        let mut inner = String::new();
        push_str(&mut inner, icon);
        push_str(&mut inner, "  ");
        push_str(&mut inner, message);
        let f = fc(color, inner.as_str());
        let b = bold(f.as_str());
        let mut out = String::new();
        push_str(&mut out, "<blockquote>");
        push_str(&mut out, b.as_str());
        push_str(&mut out, "</blockquote>");
        assert(out@ =~= status_spec(kind, message@));
        out
    }
}

/// An information card (see [`GlassTemplate::info_card`]).
pub fn info_card(title: &str, items: &[(&str, &str)]) -> (r: String)
    ensures
        r@ == info_card_spec(title@, pairs_view(items@)),
{
    GlassTemplate::info_card(title, items)
}

/// The help menu (see [`GlassTemplate::help_menu`]).
pub fn help_menu(commands: &[(&str, &str)]) -> (r: String)
    ensures
        r@ == help_menu_spec(pairs_view(commands@)),
{
    GlassTemplate::help_menu(commands)
}

/// A success message with a green check mark.
pub fn success(msg: &str) -> (r: String)
    ensures
        r@ == status_spec(Status::Success, msg@),
{
    GlassTemplate::status(Status::Success, msg)
}

/// An error message with a red cross.
pub fn error(msg: &str) -> (r: String)
    ensures
        r@ == status_spec(Status::Error, msg@),
{
    GlassTemplate::status(Status::Error, msg)
}

/// A warning message with a yellow warning sign.
pub fn warning(msg: &str) -> (r: String)
    ensures
        r@ == status_spec(Status::Warning, msg@),
{
    GlassTemplate::status(Status::Warning, msg)
}

/// An information message in the accent colour.
pub fn info(msg: &str) -> (r: String)
    ensures
        r@ == info_spec(msg@),
{
    let f = fc(ACCENT, msg);
    let b = bold(f.as_str());
    let mut out = String::new();
    push_str(&mut out, "<blockquote>");
    push_str(&mut out, b.as_str());
    push_str(&mut out, "</blockquote>");
    assert(out@ =~= info_spec(msg@));
    out
}

/// A ranking table with headers and rows of cells.
pub fn leaderboard(title: &str, headers: &[&str], rows: &[Vec<&str>]) -> (r: String)
    ensures
        r@ == leaderboard_spec(title@, strs_of(headers@), rows_view(rows@)),
{
    let mut out = heading("🏆", title);
    push_str(&mut out, "<blockquote><table><thead><tr>");
    let ghost p1 = out@;
    let ghost hs = header_cells(strs_of(headers@));
    let mut i: usize = 0;
    while i < headers.len()
        invariant
            i <= headers.len(),
            hs == header_cells(strs_of(headers@)),
            hs.len() == headers@.len(),
            out@ == p1 + concat_all(hs.take(i as int)),
        decreases headers.len() - i,
    {
        let mut cell = String::new();
        push_str(&mut cell, "<th>");
        let f = fc(KEY, headers[i]);
        push_str(&mut cell, f.as_str());
        push_str(&mut cell, "</th>");
        proof {
            assert(cell@ =~= hs[i as int]);
            lemma_concat_all_push(hs, i as int);
        }
        push_str(&mut out, cell.as_str());
        assert(out@ =~= p1 + concat_all(hs.take(i + 1)));
        i += 1;
    }
    assert(hs.take(headers.len() as int) =~= hs);
    push_str(&mut out, "</tr></thead><tbody>");
    let ghost p2 = out@;
    let ghost ds = data_rows(rows_view(rows@));
    let mut j: usize = 0;
    while j < rows.len()
        invariant
            j <= rows.len(),
            ds == data_rows(rows_view(rows@)),
            ds.len() == rows@.len(),
            out@ == p2 + concat_all(ds.take(j as int)),
        decreases rows.len() - j,
    {
        let row = &rows[j];
        let ghost cs = data_cells(strs_of(row@));
        let mut line = String::new();
        push_str(&mut line, "<tr>");
        let ghost p3 = line@;
        let mut k: usize = 0;
        while k < row.len()
            invariant
                k <= row.len(),
                cs == data_cells(strs_of(row@)),
                cs.len() == row@.len(),
                line@ == p3 + concat_all(cs.take(k as int)),
            decreases row.len() - k,
        {
            let mut cell = String::new();
            push_str(&mut cell, "<td>");
            let f = fc(VALUE, row[k]);
            let b = bold(f.as_str());
            push_str(&mut cell, b.as_str());
            push_str(&mut cell, "</td>");
            proof {
                assert(cell@ =~= cs[k as int]);
                lemma_concat_all_push(cs, k as int);
            }
            push_str(&mut line, cell.as_str());
            assert(line@ =~= p3 + concat_all(cs.take(k + 1)));
            k += 1;
        }
        assert(cs.take(row.len() as int) =~= cs);
        push_str(&mut line, "</tr>");
        proof {
            assert(rows_view(rows@)[j as int] == strs_of(row@));
            assert(line@ =~= ds[j as int]);
            lemma_concat_all_push(ds, j as int);
        }
        push_str(&mut out, line.as_str());
        assert(out@ =~= p2 + concat_all(ds.take(j + 1)));
        j += 1;
    }
    assert(ds.take(rows.len() as int) =~= ds);
    push_str(&mut out, "</tbody></table></blockquote>");
    assert(out@ =~= leaderboard_spec(title@, strs_of(headers@), rows_view(rows@)));
    out
}


/// Views of owned string pairs.
pub open spec fn owned_pairs(items: Seq<(String, String)>) -> Seq<(Seq<char>, Seq<char>)> {
    items.map_values(|p: (String, String)| (p.0@, p.1@))
}

/// Views of rows of owned cells.
pub open spec fn owned_rows(rows: Seq<Vec<String>>) -> Seq<Seq<Seq<char>>> {
    rows.map_values(|r: Vec<String>| r@.map_values(|c: String| c@))
}

/// [`info_card`] over owned key/value strings.
pub fn info_card_owned(title: &str, items: &Vec<(String, String)>) -> (r: String)
    ensures
        r@ == info_card_spec(title@, owned_pairs(items@)),
{
    let mut refs: Vec<(&str, &str)> = Vec::new();
    let mut i: usize = 0;
    while i < items.len()
        invariant
            i <= items.len(),
            pairs_view(refs@) =~= owned_pairs(items@.take(i as int)),
        decreases items.len() - i,
    {
        let ghost prev = refs@;
        refs.push((items[i].0.as_str(), items[i].1.as_str()));
        assert(items@.take(i + 1) =~= items@.take(i as int).push(items@[i as int]));
        assert(pairs_view(refs@) =~= pairs_view(prev).push((items@[i as int].0@, items@[i as int].1@)));
        assert(owned_pairs(items@.take(i + 1)) =~= owned_pairs(items@.take(i as int)).push(
            (items@[i as int].0@, items@[i as int].1@),
        ));
        i += 1;
    }
    assert(items@.take(items.len() as int) =~= items@);
    info_card(title, refs.as_slice())
}

/// [`help_menu`] over owned command/description strings.
pub fn help_menu_owned(items: &Vec<(String, String)>) -> (r: String)
    ensures
        r@ == help_menu_spec(owned_pairs(items@)),
{
    let mut refs: Vec<(&str, &str)> = Vec::new();
    let mut i: usize = 0;
    while i < items.len()
        invariant
            i <= items.len(),
            pairs_view(refs@) =~= owned_pairs(items@.take(i as int)),
        decreases items.len() - i,
    {
        let ghost prev = refs@;
        refs.push((items[i].0.as_str(), items[i].1.as_str()));
        assert(items@.take(i + 1) =~= items@.take(i as int).push(items@[i as int]));
        assert(pairs_view(refs@) =~= pairs_view(prev).push((items@[i as int].0@, items@[i as int].1@)));
        assert(owned_pairs(items@.take(i + 1)) =~= owned_pairs(items@.take(i as int)).push(
            (items@[i as int].0@, items@[i as int].1@),
        ));
        i += 1;
    }
    assert(items@.take(items.len() as int) =~= items@);
    help_menu(refs.as_slice())
}

/// [`leaderboard`] over owned cells.
pub fn leaderboard_owned(title: &str, headers: &[&str], rows: &Vec<Vec<String>>) -> (r: String)
    ensures
        r@ == leaderboard_spec(title@, strs_of(headers@), owned_rows(rows@)),
{
    let mut refs: Vec<Vec<&str>> = Vec::new();
    let mut i: usize = 0;
    while i < rows.len()
        invariant
            i <= rows.len(),
            rows_view(refs@) =~= owned_rows(rows@.take(i as int)),
        decreases rows.len() - i,
    {
        let row = &rows[i];
        let mut cells: Vec<&str> = Vec::new();
        let mut j: usize = 0;
        while j < row.len()
            invariant
                j <= row.len(),
                strs_of(cells@) =~= row@.take(j as int).map_values(|c: String| c@),
            decreases row.len() - j,
        {
            let ghost prevc = cells@;
            cells.push(row[j].as_str());
            assert(row@.take(j + 1) =~= row@.take(j as int).push(row@[j as int]));
            assert(strs_of(cells@) =~= strs_of(prevc).push(row@[j as int]@));
            assert(row@.take(j + 1).map_values(|c: String| c@) =~= row@.take(j as int).map_values(
                |c: String| c@,
            ).push(row@[j as int]@));
            j += 1;
        }
        assert(row@.take(row.len() as int) =~= row@);
        let ghost prevr = refs@;
        refs.push(cells);
        assert(rows@.take(i + 1) =~= rows@.take(i as int).push(rows@[i as int]));
        assert(rows_view(refs@) =~= rows_view(prevr).push(strs_of(cells@)));
        assert(owned_rows(rows@.take(i + 1)) =~= owned_rows(rows@.take(i as int)).push(
            rows@[i as int]@.map_values(|c: String| c@),
        ));
        i += 1;
    }
    assert(rows@.take(rows.len() as int) =~= rows@);
    leaderboard(title, headers, refs.as_slice())
}


/// Characters kept in the plain-text version of a message: ASCII letters,
/// digits and spaces.
pub open spec fn plain_kept(c: char) -> bool {
    ('a' <= c && c <= 'z') || ('A' <= c && c <= 'Z') || ('0' <= c && c <= '9') || c == ' '
}

/// The kept characters of `s`, in order.
pub open spec fn plain_chars(s: Seq<char>) -> Seq<char>
    decreases s.len(),
{
    if s.len() == 0 {
        Seq::empty()
    } else if plain_kept(s.last()) {
        plain_chars(s.drop_last()).push(s.last())
    } else {
        plain_chars(s.drop_last())
    }
}

/// Plain-text version of an HTML message: its ASCII letters, digits and
/// spaces, at most the first 100.
pub open spec fn plain_fallback_spec(html: Seq<char>) -> Seq<char> {
    let p = plain_chars(html);
    if p.len() > 100 {
        p.take(100)
    } else {
        p
    }
}

/// The plain-text version of an HTML message (see [`plain_fallback_spec`]).
pub fn plain_fallback(html: &str) -> (r: String)
    ensures
        r@ == plain_fallback_spec(html@),
{
    let v = crate::text::chars_of(html);
    let mut kept: Vec<char> = Vec::new();
    let mut i: usize = 0;
    while i < v.len()
        invariant
            i <= v.len(),
            v@ == html@,
            kept@ == plain_chars(v@.take(i as int)),
            kept@.len() <= i,
        decreases v.len() - i,
    {
        let c = v[i];
        assert(v@.take(i + 1).drop_last() =~= v@.take(i as int));
        if ('a' <= c && c <= 'z') || ('A' <= c && c <= 'Z') || ('0' <= c && c <= '9') || c == ' ' {
            kept.push(c);
        }
        i += 1;
    }
    assert(v@.take(v.len() as int) =~= v@);
    let end = if kept.len() > 100 {
        100
    } else {
        kept.len()
    };
    let r = crate::text::string_from_range(&kept, 0, end);
    assert(kept@.subrange(0, end as int) =~= kept@.take(end as int));
    assert(kept@.len() <= 100 ==> kept@.take(end as int) =~= kept@);
    r
}

} // verus!
