//! Messages of the wooden fish commands.

use vstd::prelude::*;

use crate::command::permission::Permission;
use crate::command::registry::CommandInfo;
use crate::text::{
    digit_char, i64_to_string, int_text, join, join_strings, nat_text, owned, push_str, strs,
    u64_to_string,
};

use crate::ui::{
    error, info_card_owned, info_card_spec, leaderboard_owned, leaderboard_spec, owned_pairs,
    owned_rows, status_spec, strs_of, success, Status,
};

use super::models::{
    rarity_color, rarity_label, DropItem, HitResult, LeaderboardEntry, MeritRecord, Rarity, Title,
    UserTitle,
};

verus! {

/// `<blockquote><b>⚠ {msg}</b></blockquote>`
pub open spec fn warning_spec(msg: Seq<char>) -> Seq<char> {
    "<blockquote><b>⚠ "@ + msg + "</b></blockquote>"@
}

/// `<blockquote><b>ℹ {msg}</b></blockquote>`
pub open spec fn info_spec(msg: Seq<char>) -> Seq<char> {
    "<blockquote><b>ℹ "@ + msg + "</b></blockquote>"@
}

/// A warning in a quote.
pub fn warning(msg: &str) -> (r: String)
    ensures
        r@ == warning_spec(msg@),
{
    let mut r = owned("<blockquote><b>⚠ ");
    push_str(&mut r, msg);
    push_str(&mut r, "</b></blockquote>");
    r
}

/// A notice in a quote.
pub fn info(msg: &str) -> (r: String)
    ensures
        r@ == info_spec(msg@),
{
    let mut r = owned("<blockquote><b>ℹ ");
    push_str(&mut r, msg);
    push_str(&mut r, "</b></blockquote>");
    r
}

/// An optional text, empty when absent.
pub open spec fn opt_text(o: Option<String>) -> Seq<char> {
    match o {
        Some(s) => s@,
        None => Seq::empty(),
    }
}

fn opt_str(o: &Option<String>) -> (r: &str)
    ensures
        r@ == opt_text(*o),
{
    match o {
        Some(s) => s.as_str(),
        None => {
            proof {
                reveal_strlit("");
            }
            ""
        },
    }
}

/// A multiplier in tenths with one decimal: `1.5`, `3.0`.
pub open spec fn tenths_text(t: nat) -> Seq<char> {
    nat_text(t / 10) + "."@ + seq![digit_char(t % 10)]
}

/// First line of a knock: the knock itself, a combo or a critical knock.
pub open spec fn knock_line(r: HitResult) -> Seq<char> {
    if r.is_critical {
        "<b>🪘✨🌟✨ 会心一击！</b>"@
    } else if r.new_combo >= 20 {
        "<b>🪘💥 COMBO x"@ + int_text(r.new_combo as int) + "！</b>"@
    } else if r.new_combo >= 5 {
        "<b>🪘💥 连击 x"@ + int_text(r.new_combo as int) + "</b>"@
    } else {
        "<b>🪘 *knock*</b>"@
    }
}

/// Second line: merit earned (with the multiplier when above one) and the total.
pub open spec fn merit_line(r: HitResult) -> Seq<char> {
    (if r.combo_multiplier_tenths > 10 {
        "+"@ + int_text(r.merit_gained as int) + " 功德（连击加成 ×"@ + tenths_text(
            r.combo_multiplier_tenths as nat,
        ) + "）"@
    } else {
        "+"@ + int_text(r.merit_gained as int) + " 功德"@
    }) + "  |  累计："@ + int_text(r.merit_total as int) + " 功德"@
}

/// Line of a dropped item.
pub open spec fn drop_line(d: DropItem) -> Seq<char> {
    "<br><b>🎁 <font color=\""@ + rarity_color(d.rarity) + "\">["@ + rarity_label(d.rarity)
        + "]</font> "@ + opt_text(d.item_icon) + " "@ + d.item_name@ + " 收入背包！</b>"@
}

/// Line of an unlocked title.
pub open spec fn title_line(t: Title) -> Seq<char> {
    "<br><b>🏆 解锁称号：<font color=\""@ + rarity_color(t.rarity) + "\">"@ + opt_text(t.icon)
        + " "@ + t.name@ + "</font></b>"@
}

/// The knock, merit and drop lines of a knock.
pub open spec fn hit_head(r: HitResult) -> Seq<Seq<char>> {
    seq![knock_line(r), merit_line(r)] + (match r.dropped_item {
        Some(d) => seq![drop_line(d)],
        None => Seq::empty(),
    })
}

/// All lines of a knock.
pub open spec fn hit_parts(r: HitResult) -> Seq<Seq<char>> {
    hit_head(r) + r.unlocked_titles@.map_values(|t: Title| title_line(t))
}

/// The message of a knock.
pub open spec fn hit_html(r: HitResult) -> Seq<char> {
    "<blockquote>"@ + join(hit_parts(r), "<br>"@) + "</blockquote>"@
}

fn knock_text(r: &HitResult) -> (s: String)
    ensures
        s@ == knock_line(*r),
{
    if r.is_critical {
        owned("<b>🪘✨🌟✨ 会心一击！</b>")
    } else if r.new_combo >= 20 {
        let mut s = owned("<b>🪘💥 COMBO x");
        push_str(&mut s, i64_to_string(r.new_combo as i64).as_str());
        push_str(&mut s, "！</b>");
        s
    } else if r.new_combo >= 5 {
        let mut s = owned("<b>🪘💥 连击 x");
        push_str(&mut s, i64_to_string(r.new_combo as i64).as_str());
        push_str(&mut s, "</b>");
        s
    } else {
        owned("<b>🪘 *knock*</b>")
    }
}

fn tenths_string(t: u32) -> (s: String)
    ensures
        s@ == tenths_text(t as nat),
{
    let mut s = u64_to_string((t / 10) as u64);
    push_str(&mut s, ".");
    let d = u64_to_string((t % 10) as u64);
    assert(d@ == seq![digit_char((t % 10) as nat)]);
    push_str(&mut s, d.as_str());
    s
}

fn merit_text(r: &HitResult) -> (s: String)
    ensures
        s@ == merit_line(*r),
{
    let mut s = owned("+");
    push_str(&mut s, i64_to_string(r.merit_gained).as_str());
    if r.combo_multiplier_tenths > 10 {
        push_str(&mut s, " 功德（连击加成 ×");
        push_str(&mut s, tenths_string(r.combo_multiplier_tenths).as_str());
        push_str(&mut s, "）");
    } else {
        push_str(&mut s, " 功德");
    }
    push_str(&mut s, "  |  累计：");
    push_str(&mut s, i64_to_string(r.merit_total).as_str());
    push_str(&mut s, " 功德");
    s
}

fn drop_text(d: &DropItem) -> (s: String)
    ensures
        s@ == drop_line(*d),
{
    let mut s = owned("<br><b>🎁 <font color=\"");
    push_str(&mut s, d.rarity.color());
    push_str(&mut s, "\">[");
    push_str(&mut s, d.rarity.display_name());
    push_str(&mut s, "]</font> ");
    push_str(&mut s, opt_str(&d.item_icon));
    push_str(&mut s, " ");
    push_str(&mut s, d.item_name.as_str());
    push_str(&mut s, " 收入背包！</b>");
    s
}

fn title_text(t: &Title) -> (s: String)
    ensures
        s@ == title_line(*t),
{
    let mut s = owned("<br><b>🏆 解锁称号：<font color=\"");
    push_str(&mut s, t.rarity.color());
    push_str(&mut s, "\">");
    push_str(&mut s, opt_str(&t.icon));
    push_str(&mut s, " ");
    push_str(&mut s, t.name.as_str());
    push_str(&mut s, "</font></b>");
    s
}

/// The message of an admitted knock.
pub fn render_hit_result(result: &HitResult) -> (r: String)
    ensures
        r@ == hit_html(*result),
{
    let ghost want = hit_parts(*result);
    let mut parts: Vec<String> = Vec::new();
    parts.push(knock_text(result));
    parts.push(merit_text(result));
    let ghost base = hit_head(*result);
    match &result.dropped_item {
        Some(d) => {
            parts.push(drop_text(d));
        },
        None => {},
    }
    assert(strs(parts@) =~= base);
    let ghost titles = result.unlocked_titles@;
    let mut i: usize = 0;
    while i < result.unlocked_titles.len()
        invariant
            i <= result.unlocked_titles.len(),
            titles == result.unlocked_titles@,
            strs(parts@) =~= base + titles.take(i as int).map_values(|t: Title| title_line(t)),
        decreases result.unlocked_titles.len() - i,
    {
        let ghost prev = parts@;
        parts.push(title_text(&result.unlocked_titles[i]));
        assert(strs(parts@) =~= strs(prev).push(title_line(titles[i as int])));
        assert(titles.take(i + 1).map_values(|t: Title| title_line(t)) =~= titles.take(
            i as int,
        ).map_values(|t: Title| title_line(t)).push(title_line(titles[i as int])));
        i += 1;
    }
    assert(titles.take(titles.len() as int) =~= titles);
    assert(strs(parts@) =~= want);
    let mut out = owned("<blockquote>");
    push_str(&mut out, join_strings(&parts, "<br>").as_str());
    push_str(&mut out, "</blockquote>");
    out
}

/// What a knock answers: a warning when it came too soon (nothing
/// gained), the knock's message otherwise.
pub fn hit_message(result: &HitResult) -> (r: String)
    ensures
        result.merit_gained == 0 ==> r@ == warning_spec("敲得太快了，请稍后再试~"@),
        result.merit_gained != 0 ==> r@ == hit_html(*result),
{
    if result.merit_gained == 0 {
        warning("敲得太快了，请稍后再试~")
    } else {
        render_hit_result(result)
    }
}


// ---------------------------------------------------------------------------
// Merit and titles
// ---------------------------------------------------------------------------
/// The first worn title.
pub open spec fn first_equipped(titles: Seq<UserTitle>) -> Option<Title>
    decreases titles.len(),
{
    if titles.len() == 0 {
        None
    } else {
        match first_equipped(titles.drop_last()) {
            Some(t) => Some(t),
            None => if titles.last().equipped {
                Some(titles.last().title)
            } else {
                None
            },
        }
    }
}

/// `{icon} {name}` of a title.
pub open spec fn title_label(t: Title) -> Seq<char> {
    opt_text(t.icon) + " "@ + t.name@
}

/// Rows of the merit card.
pub open spec fn merit_items(r: MeritRecord, worn: Option<Title>) -> Seq<(Seq<char>, Seq<char>)> {
    seq![
        ("累计功德"@, int_text(r.merit_total as int)),
        ("今日功德"@, int_text(r.merit_today as int)),
        ("今日敲击"@, int_text(r.hits_today as int)),
        ("最大连击"@, int_text(r.max_combo as int)),
        ("会心一击"@, int_text(r.critical_count as int)),
    ] + match worn {
        Some(t) => seq![("当前称号"@, title_label(t))],
        None => Seq::empty(),
    }
}

/// Each row of the merit card shows the counter it names: total merit,
/// today's merit, today's knocks, the longest combo and the critical knocks,
/// in that order, then the worn title when there is one and nothing more.
pub proof fn law_merit_card_rows(r: MeritRecord, worn: Option<Title>)
    ensures
        merit_items(r, worn).len() == 5 + (if worn is Some { 1int } else { 0int }),
        merit_items(r, worn)[0] == ("累计功德"@, int_text(r.merit_total as int)),
        merit_items(r, worn)[1] == ("今日功德"@, int_text(r.merit_today as int)),
        merit_items(r, worn)[2] == ("今日敲击"@, int_text(r.hits_today as int)),
        merit_items(r, worn)[3] == ("最大连击"@, int_text(r.max_combo as int)),
        merit_items(r, worn)[4] == ("会心一击"@, int_text(r.critical_count as int)),
        worn matches Some(t) ==> merit_items(r, worn)[5] == ("当前称号"@, title_label(t)),
        merit_html(Some(r), Seq::empty()) == info_card_spec("功德信息"@, merit_items(r, None)),
        forall|titles: Seq<UserTitle>|
            merit_html(None, titles) == info_spec("还没有敲过木鱼，使用 !木鱼 开始积累功德吧~"@),
{
    assert(first_equipped(Seq::<UserTitle>::empty()) is None);
}

/// No worn title is found when no title is worn.
pub proof fn law_no_worn_title(titles: Seq<UserTitle>)
    requires
        forall|j: int| 0 <= j < titles.len() ==> !(#[trigger] titles[j]).equipped,
    ensures
        first_equipped(titles) is None,
    decreases titles.len(),
{
    if titles.len() > 0 {
        law_no_worn_title(titles.drop_last());
        assert(!titles[titles.len() - 1].equipped);
    }
}

/// The worn title shown is the first worn title of the list.
pub proof fn law_worn_title_is_the_first(titles: Seq<UserTitle>, i: int)
    requires
        0 <= i < titles.len(),
        titles[i].equipped,
        forall|j: int| 0 <= j < i ==> !(#[trigger] titles[j]).equipped,
    ensures
        first_equipped(titles) == Some(titles[i].title),
    decreases titles.len(),
{
    let u = titles.drop_last();
    if i == titles.len() - 1 {
        assert forall|j: int| 0 <= j < u.len() implies !(#[trigger] u[j]).equipped by {
            assert(u[j] == titles[j]);
        }
        law_no_worn_title(u);
    } else {
        assert forall|j: int| 0 <= j < i implies !(#[trigger] u[j]).equipped by {
            assert(u[j] == titles[j]);
        }
        law_worn_title_is_the_first(u, i);
    }
}

/// Answer to the merit command.
pub open spec fn merit_html(record: Option<MeritRecord>, titles: Seq<UserTitle>) -> Seq<char> {
    match record {
        Some(r) => info_card_spec("功德信息"@, merit_items(r, first_equipped(titles))),
        None => info_spec("还没有敲过木鱼，使用 !木鱼 开始积累功德吧~"@),
    }
}

fn find_equipped(titles: &Vec<UserTitle>) -> (r: Option<usize>)
    ensures
        match r {
            Some(i) => i < titles@.len() && first_equipped(titles@) == Some(titles@[i as int].title),
            None => first_equipped(titles@) is None,
        },
{
    let mut i: usize = 0;
    while i < titles.len()
        invariant
            i <= titles.len(),
            first_equipped(titles@.take(i as int)) is None,
        decreases titles.len() - i,
    {
        assert(titles@.take(i + 1).drop_last() =~= titles@.take(i as int));
        if titles[i].equipped {
            proof {
                lemma_first_equipped_extend(titles@, i as int + 1);
            }
            return Some(i);
        }
        i += 1;
    }
    assert(titles@.take(titles.len() as int) =~= titles@);
    None
}

/// Once a prefix holds a worn title, longer prefixes find the same one.
proof fn lemma_first_equipped_extend(titles: Seq<UserTitle>, n: int)
    requires
        0 <= n <= titles.len(),
        first_equipped(titles.take(n)) is Some,
    ensures
        first_equipped(titles) == first_equipped(titles.take(n)),
    decreases titles.len() - n,
{
    if n < titles.len() {
        assert(titles.take(n + 1).drop_last() =~= titles.take(n));
        lemma_first_equipped_extend(titles, n + 1);
    } else {
        assert(titles.take(n) =~= titles);
    }
}

fn label_of(t: &Title) -> (s: String)
    ensures
        s@ == title_label(*t),
{
    let mut s = owned(opt_str(&t.icon));
    push_str(&mut s, " ");
    push_str(&mut s, t.name.as_str());
    s
}

/// The merit card of a user, or a hint when the user never knocked.
pub fn merit_message(record: &Option<MeritRecord>, titles: &Vec<UserTitle>) -> (r: String)
    ensures
        r@ == merit_html(*record, titles@),
{
    match record {
        None => info("还没有敲过木鱼，使用 !木鱼 开始积累功德吧~"),
        Some(rec) => {
            let mut items: Vec<(String, String)> = Vec::new();
            items.push((owned("累计功德"), i64_to_string(rec.merit_total)));
            items.push((owned("今日功德"), i64_to_string(rec.merit_today)));
            items.push((owned("今日敲击"), i64_to_string(rec.hits_today as i64)));
            items.push((owned("最大连击"), i64_to_string(rec.max_combo as i64)));
            items.push((owned("会心一击"), i64_to_string(rec.critical_count)));
            match find_equipped(titles) {
                Some(i) => {
                    items.push((owned("当前称号"), label_of(&titles[i].title)));
                },
                None => {},
            }
            assert(owned_pairs(items@) =~= merit_items(*rec, first_equipped(titles@)));
            info_card_owned("功德信息", &items)
        },
    }
}

/// Row of the title list: `{icon} {name} [{rarity}]`, and whether it is worn.
pub open spec fn title_row(t: UserTitle) -> (Seq<char>, Seq<char>) {
    (
        title_label(t.title) + " ["@ + rarity_label(t.title.rarity) + "]"@,
        if t.equipped {
            "已装备"@
        } else {
            Seq::empty()
        },
    )
}

/// Answer to the title command without arguments.
pub open spec fn title_list_html(titles: Seq<UserTitle>) -> Seq<char> {
    if titles.len() == 0 {
        info_spec("还没有解锁任何称号，继续敲木鱼吧~"@)
    } else {
        info_card_spec("已解锁称号"@, titles.map_values(|t: UserTitle| title_row(t)))
    }
}

/// The titles a user has unlocked.
pub fn title_list_message(titles: &Vec<UserTitle>) -> (r: String)
    ensures
        r@ == title_list_html(titles@),
{
    if titles.len() == 0 {
        return info("还没有解锁任何称号，继续敲木鱼吧~");
    }
    proof {
        reveal_strlit("");
    }
    let ghost want = titles@.map_values(|t: UserTitle| title_row(t));
    let mut items: Vec<(String, String)> = Vec::new();
    let mut i: usize = 0;
    while i < titles.len()
        invariant
            i <= titles.len(),
            want == titles@.map_values(|t: UserTitle| title_row(t)),
            owned_pairs(items@) =~= want.take(i as int),
            ""@ == Seq::<char>::empty(),
        decreases titles.len() - i,
    {
        let t = &titles[i];
        let mut k = label_of(&t.title);
        push_str(&mut k, " [");
        push_str(&mut k, t.title.rarity.display_name());
        push_str(&mut k, "]");
        let v = if t.equipped {
            owned("已装备")
        } else {
            owned("")
        };
        let ghost prev = items@;
        items.push((k, v));
        assert(owned_pairs(items@) =~= owned_pairs(prev).push(want[i as int]));
        assert(want.take(i + 1) =~= want.take(i as int).push(want[i as int]));
        i += 1;
    }
    assert(want.take(titles.len() as int) =~= want);
    info_card_owned("已解锁称号", &items)
}

/// The first title named `name`.
pub open spec fn find_title_from(titles: Seq<UserTitle>, name: Seq<char>, i: int) -> Option<int>
    decreases titles.len() - i,
{
    if i < 0 || i >= titles.len() {
        None
    } else if titles[i].title.name@ == name {
        Some(i)
    } else {
        find_title_from(titles, name, i + 1)
    }
}

/// Position of the first of `titles` named `name`.
pub fn find_title(titles: &Vec<UserTitle>, name: &str) -> (r: Option<usize>)
    ensures
        match r {
            Some(i) => find_title_from(titles@, name@, 0) == Some(i as int),
            None => find_title_from(titles@, name@, 0) is None,
        },
{
    let mut i: usize = 0;
    while i < titles.len()
        invariant
            i <= titles.len(),
            find_title_from(titles@, name@, i as int) == find_title_from(titles@, name@, 0),
        decreases titles.len() - i,
    {
        if crate::text::str_eq(titles[i].title.name.as_str(), name) {
            return Some(i);
        }
        i += 1;
    }
    None
}

/// Answer after a title was worn.
pub fn equipped_message(t: &Title) -> (r: String)
    ensures
        r@ == status_spec(Status::Success, "已装备称号: "@ + title_label(*t)),
{
    let mut m = owned("已装备称号: ");
    push_str(&mut m, label_of(t).as_str());
    success(m.as_str())
}

/// Answer when wearing a title failed.
pub fn equip_failed_message() -> (r: String)
    ensures
        r@ == status_spec(Status::Error, "装备失败"@),
{
    error("装备失败")
}

/// Answer when the user has no title of that name.
pub fn title_not_found_message(name: &str) -> (r: String)
    ensures
        r@ == status_spec(Status::Error, "未找到称号: "@ + name@),
{
    let mut m = owned("未找到称号: ");
    push_str(&mut m, name);
    error(m.as_str())
}


// ---------------------------------------------------------------------------
// Bag
// ---------------------------------------------------------------------------
/// An item kind in the bag: name, count, icon and rarity of its first drop.
pub type BagGroup = (Seq<char>, nat, Seq<char>, Rarity);

/// Position of the first group named `name`, from position `i` on.
pub open spec fn find_group_from(g: Seq<BagGroup>, name: Seq<char>, i: int) -> int
    decreases g.len() - i,
{
    if i < 0 || i >= g.len() {
        -1
    } else if g[i].0 == name {
        i
    } else {
        find_group_from(g, name, i + 1)
    }
}

/// Drops grouped by item name, in order of first appearance.
pub open spec fn group_drops(drops: Seq<DropItem>) -> Seq<BagGroup>
    decreases drops.len(),
{
    if drops.len() == 0 {
        Seq::empty()
    } else {
        let g = group_drops(drops.drop_last());
        let d = drops.last();
        let j = find_group_from(g, d.item_name@, 0);
        if j >= 0 {
            g.update(j, (g[j].0, g[j].1 + 1, g[j].2, g[j].3))
        } else {
            g.push((d.item_name@, 1, opt_text(d.item_icon), d.rarity))
        }
    }
}

/// Display order of rarities: legendary, epic, rare, common.
pub open spec fn rarity_rank(r: Rarity) -> int {
    match r {
        Rarity::Legendary => 0,
        Rarity::Epic => 1,
        Rarity::Rare => 2,
        Rarity::Common => 3,
    }
}

/// The groups of one rank, in their order.
pub open spec fn of_rank(g: Seq<BagGroup>, k: int) -> Seq<BagGroup>
    decreases g.len(),
{
    if g.len() == 0 {
        Seq::empty()
    } else if rarity_rank(g.last().3) == k {
        of_rank(g.drop_last(), k).push(g.last())
    } else {
        of_rank(g.drop_last(), k)
    }
}

/// Groups ordered by rarity, stable within a rarity.
pub open spec fn by_rarity(g: Seq<BagGroup>) -> Seq<BagGroup> {
    of_rank(g, 0) + of_rank(g, 1) + of_rank(g, 2) + of_rank(g, 3)
}

/// Row of a group: `{icon} {name} x{count}` and the rarity.
pub open spec fn bag_row(e: BagGroup) -> (Seq<char>, Seq<char>) {
    (e.2 + " "@ + e.0 + " x"@ + nat_text(e.1), rarity_label(e.3))
}

/// Answer to the bag command.
pub open spec fn bag_html(drops: Seq<DropItem>) -> Seq<char> {
    if drops.len() == 0 {
        info_spec("背包空空如也，继续敲木鱼收集物品吧~"@)
    } else {
        info_card_spec(
            "背包 (共 "@ + nat_text(drops.len()) + " 件)"@,
            by_rarity(group_drops(drops)).map_values(|e: BagGroup| bag_row(e)),
        )
    }
}

/// Groups as they are held while counting.
pub open spec fn groups_view(v: Seq<(String, u64, String, Rarity)>) -> Seq<BagGroup> {
    v.map_values(|e: (String, u64, String, Rarity)| (e.0@, e.1 as nat, e.2@, e.3))
}

fn group(drops: &Vec<DropItem>) -> (r: Vec<(String, u64, String, Rarity)>)
    ensures
        groups_view(r@) == group_drops(drops@),
{
    let mut g: Vec<(String, u64, String, Rarity)> = Vec::new();
    let mut i: usize = 0;
    while i < drops.len()
        invariant
            i <= drops.len(),
            groups_view(g@) =~= group_drops(drops@.take(i as int)),
            forall|k: int| 0 <= k < g@.len() ==> g@[k].1 <= i,
        decreases drops.len() - i,
    {
        let d = &drops[i];
        assert(drops@.take(i + 1).drop_last() =~= drops@.take(i as int));
        let ghost gv = groups_view(g@);
        let mut j: usize = 0;
        while j < g.len()
            invariant
                j <= g.len(),
                gv == groups_view(g@),
                find_group_from(gv, d.item_name@, j as int) == find_group_from(gv, d.item_name@, 0),
            ensures
                j <= g.len(),
                gv == groups_view(g@),
                find_group_from(gv, d.item_name@, j as int) == find_group_from(gv, d.item_name@, 0),
                j < g.len() ==> gv[j as int].0 == d.item_name@,
            decreases g.len() - j,
        {
            if crate::text::str_eq(g[j].0.as_str(), d.item_name.as_str()) {
                break;
            }
            j += 1;
        }
        if j < g.len() {
            assert(find_group_from(gv, d.item_name@, 0) == j);
            let e = (g[j].0.clone(), g[j].1 + 1, g[j].2.clone(), g[j].3);
            let ghost prev = g@;
            g.set(j, e);
            assert(groups_view(g@) =~= gv.update(j as int, (gv[j as int].0, gv[j as int].1 + 1, gv[j as int].2, gv[j as int].3)));
            assert forall|k: int| 0 <= k < g@.len() implies g@[k].1 <= i + 1 by {
                if k != j {
                    assert(g@[k] == prev[k]);
                }
            }
        } else {
            assert(find_group_from(gv, d.item_name@, j as int) == -1);
            let icon = owned(opt_str(&d.item_icon));
            g.push((d.item_name.clone(), 1, icon, d.rarity));
            assert(groups_view(g@) =~= gv.push((d.item_name@, 1, opt_text(d.item_icon), d.rarity)));
        }
        i += 1;
    }
    assert(drops@.take(drops.len() as int) =~= drops@);
    g
}

fn append_rank(
    out: &mut Vec<(String, String)>,
    g: &Vec<(String, u64, String, Rarity)>,
    k: u8,
)
    requires
        k <= 3,
    ensures
        owned_pairs(final(out)@) =~= owned_pairs(old(out)@) + of_rank(groups_view(g@), k as int).map_values(
            |e: BagGroup| bag_row(e),
        ),
{
    let ghost gv = groups_view(g@);
    let ghost start = owned_pairs(out@);
    let mut i: usize = 0;
    while i < g.len()
        invariant
            i <= g.len(),
            gv == groups_view(g@),
            owned_pairs(out@) =~= start + of_rank(gv.take(i as int), k as int).map_values(
                |e: BagGroup| bag_row(e),
            ),
        decreases g.len() - i,
    {
        assert(gv.take(i + 1).drop_last() =~= gv.take(i as int));
        let e = &g[i];
        let rank: u8 = match e.3 {
            Rarity::Legendary => 0,
            Rarity::Epic => 1,
            Rarity::Rare => 2,
            Rarity::Common => 3,
        };
        if rank == k {
            let mut label = owned(e.2.as_str());
            push_str(&mut label, " ");
            push_str(&mut label, e.0.as_str());
            push_str(&mut label, " x");
            push_str(&mut label, u64_to_string(e.1).as_str());
            let ghost prev = out@;
            out.push((label, owned(e.3.display_name())));
            proof {
                let row = bag_row(gv[i as int]);
                assert(owned_pairs(out@) =~= owned_pairs(prev).push(row));
                let ranked = of_rank(gv.take(i as int), k as int);
                assert(of_rank(gv.take(i + 1), k as int) == ranked.push(gv[i as int]));
                assert(ranked.push(gv[i as int]).map_values(|e: BagGroup| bag_row(e)) =~= ranked.map_values(
                    |e: BagGroup| bag_row(e),
                ).push(row));
            }
        }
        i += 1;
    }
    assert(gv.take(g.len() as int) =~= gv);
}

/// The bag of a user: items counted by name, rarest first.
pub fn bag_message(drops: &Vec<DropItem>) -> (r: String)
    ensures
        r@ == bag_html(drops@),
{
    if drops.len() == 0 {
        return info("背包空空如也，继续敲木鱼收集物品吧~");
    }
    let g = group(drops);
    let mut items: Vec<(String, String)> = Vec::new();
    append_rank(&mut items, &g, 0);
    append_rank(&mut items, &g, 1);
    append_rank(&mut items, &g, 2);
    append_rank(&mut items, &g, 3);
    proof {
        let gv = groups_view(g@);
        let f = |e: BagGroup| bag_row(e);
        assert(by_rarity(gv).map_values(f) =~= of_rank(gv, 0).map_values(f) + of_rank(gv, 1).map_values(f)
            + of_rank(gv, 2).map_values(f) + of_rank(gv, 3).map_values(f));
    }
    let mut title = owned("背包 (共 ");
    push_str(&mut title, u64_to_string(drops.len() as u64).as_str());
    push_str(&mut title, " 件)");
    info_card_owned(title.as_str(), &items)
}

// ---------------------------------------------------------------------------
// Ranking
// ---------------------------------------------------------------------------
/// Position of the first `c` at or after `i`, or the length.
pub open spec fn stop_at(s: Seq<char>, c: char, i: int) -> int
    decreases s.len() - i,
{
    if i < 0 || i >= s.len() || s[i] == c {
        i
    } else {
        stop_at(s, c, i + 1)
    }
}

/// Position of the first character at or after `i` that is not `c`.
pub open spec fn skip_char(s: Seq<char>, c: char, i: int) -> int
    decreases s.len() - i,
{
    if i < 0 || i >= s.len() || s[i] != c {
        i
    } else {
        skip_char(s, c, i + 1)
    }
}

/// Short form of a user id: the part before the first `:`, without leading `@`.
pub open spec fn short_user(id: Seq<char>) -> Seq<char> {
    let head = id.take(stop_at(id, ':', 0));
    head.skip(skip_char(head, '@', 0))
}

/// A ranking row: position, worn title and short user id, total merit.
pub open spec fn rank_row(i: int, e: LeaderboardEntry) -> Seq<Seq<char>> {
    seq![
        int_text(i + 1),
        match e.equipped_title {
            Some(t) => title_label(t) + " "@,
            None => Seq::empty(),
        } + short_user(e.user_id@),
        int_text(e.merit_total as int),
    ]
}

/// Answer to the ranking command.
pub open spec fn rank_html(entries: Seq<LeaderboardEntry>) -> Seq<char> {
    if entries.len() == 0 {
        info_spec("暂无功德记录"@)
    } else {
        leaderboard_spec(
            "功德排行榜"@,
            seq!["排名"@, "用户"@, "功德"@],
            Seq::new(entries.len(), |i: int| rank_row(i, entries[i])),
        )
    }
}

/// Short form of a user id (see [`short_user`]).
pub fn short_user_id(id: &str) -> (r: String)
    ensures
        r@ == short_user(id@),
{
    let v = crate::text::chars_of(id);
    let mut end: usize = 0;
    while end < v.len() && v[end] != ':'
        invariant
            end <= v.len(),
            v@ == id@,
            stop_at(v@, ':', end as int) == stop_at(v@, ':', 0),
        decreases v.len() - end,
    {
        end += 1;
    }
    let ghost head = v@.take(end as int);
    let mut start: usize = 0;
    while start < end && v[start] == '@'
        invariant
            start <= end <= v.len(),
            head == v@.take(end as int),
            skip_char(head, '@', start as int) == skip_char(head, '@', 0),
        decreases end - start,
    {
        start += 1;
    }
    let r = crate::text::string_from_range(&v, start, end);
    assert(r@ =~= head.skip(start as int));
    r
}

/// The ranking of a room.
pub fn rank_message(entries: &Vec<LeaderboardEntry>) -> (r: String)
    ensures
        r@ == rank_html(entries@),
{
    if entries.len() == 0 {
        return info("暂无功德记录");
    }
    let ghost want = Seq::new(entries@.len(), |i: int| rank_row(i, entries@[i]));
    let mut rows: Vec<Vec<String>> = Vec::new();
    let mut i: usize = 0;
    while i < entries.len()
        invariant
            i <= entries.len(),
            want == Seq::new(entries@.len(), |i: int| rank_row(i, entries@[i])),
            owned_rows(rows@) =~= want.take(i as int),
        decreases entries.len() - i,
    {
        let e = &entries[i];
        let mut who = match &e.equipped_title {
            Some(t) => {
                let mut s = label_of(t);
                push_str(&mut s, " ");
                s
            },
            None => String::new(),
        };
        push_str(&mut who, short_user_id(e.user_id.as_str()).as_str());
        let mut row: Vec<String> = Vec::new();
        row.push(u64_to_string(i as u64 + 1));
        row.push(who);
        row.push(i64_to_string(e.merit_total));
        let ghost prev = rows@;
        proof {
            assert(row@.map_values(|c: String| c@) =~= want[i as int]);
        }
        rows.push(row);
        assert(owned_rows(rows@) =~= owned_rows(prev).push(want[i as int]));
        assert(want.take(i + 1) =~= want.take(i as int).push(want[i as int]));
        i += 1;
    }
    assert(want.take(entries.len() as int) =~= want);
    let headers = ["排名", "用户", "功德"];
    let r = leaderboard_owned("功德排行榜", headers.as_slice(), &rows);
    assert(strs_of(headers@) =~= seq!["排名"@, "用户"@, "功德"@]);
    r
}


// ---------------------------------------------------------------------------
// Commands
// ---------------------------------------------------------------------------
fn command(name: &str, description: &str, usage: &str) -> (r: CommandInfo)
    ensures
        r.name@ == name@,
        r.description@ == description@,
        r.usage@ == usage@,
        r.permission == Permission::Anyone,
{
    CommandInfo { name: owned(name), description: owned(description), usage: owned(usage), permission: Permission::Anyone }
}

/// Registry entries of the game's commands, all open to anyone: knock,
/// merit, ranking, titles (with an optional title name to wear) and bag.
pub fn muyu_commands() -> (r: Vec<CommandInfo>)
    ensures
        r@.len() == 5,
        r@[0].name@ == "木鱼"@ && r@[0].description@ == "敲一次木鱼，积累功德"@ && r@[0].usage@.len() == 0,
        r@[1].name@ == "功德"@ && r@[1].description@ == "查看当前功德值"@ && r@[1].usage@.len() == 0,
        r@[2].name@ == "功德榜"@ && r@[2].description@ == "查看房间功德排行榜"@ && r@[2].usage@.len() == 0,
        r@[3].name@ == "称号"@ && r@[3].description@ == "查看或装备称号"@ && r@[3].usage@ == "称号 [称号名称]"@,
        r@[4].name@ == "背包"@ && r@[4].description@ == "查看掉落物品背包"@ && r@[4].usage@.len() == 0,
        forall|i: int| 0 <= i < 5 ==> #[trigger] r@[i].permission == Permission::Anyone,
{
    proof {
        reveal_strlit("");
    }
    let mut r: Vec<CommandInfo> = Vec::new();
    r.push(command("木鱼", "敲一次木鱼，积累功德", ""));
    r.push(command("功德", "查看当前功德值", ""));
    r.push(command("功德榜", "查看房间功德排行榜", ""));
    r.push(command("称号", "查看或装备称号", "称号 [称号名称]"));
    r.push(command("背包", "查看掉落物品背包", ""));
    r
}

} // verus!
