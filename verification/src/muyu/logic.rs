//! Rules of a knock: the cooldown that stops flooding, combos and their
//! multiplier, critical knocks, merit, drops and title conditions.
//!
//! Chance is expressed in integer draws: a knock is critical when a draw
//! below 10000 is below 100 (one percent), an item drops when a draw below
//! 10000 is below 1000 (ten percent) or, on a critical knock, below 5000
//! (fifty percent); the dropped item is drawn by weight.

use dashmap::DashMap;
use vstd::prelude::*;

use crate::chance::random_below;
use crate::text::{owned, push_str, str_eq};

use super::models::{ConditionKind, DropDef, DropItem, HitResult, MeritRecord, Rarity, Title};

verus! {

/// Least time between two counted knocks of one user in one room, in nanoseconds.
pub const COOLDOWN_NS: u64 = 500_000_000;

/// A knock more than this many whole seconds after the previous one starts a new combo.
pub const COMBO_WINDOW_SECS: i64 = 60;

/// Chance of a critical knock, per ten thousand.
pub const CRITICAL_PER_TEN_THOUSAND: u32 = 100;

/// Chance of a drop on an ordinary knock, per ten thousand.
pub const DROP_PER_TEN_THOUSAND: u32 = 1000;

/// Chance of a drop on a critical knock, per ten thousand.
pub const CRITICAL_DROP_PER_TEN_THOUSAND: u32 = 5000;

// ---------------------------------------------------------------------------
// Cooldown table
// ---------------------------------------------------------------------------
/// Key of a user in a room: `{user}:{room}`.
pub open spec fn cooldown_key_spec(user_id: Seq<char>, room_id: Seq<char>) -> Seq<char> {
    user_id + ":"@ + room_id
}

/// The time of the last counted knock under `key`.
pub open spec fn last_hit_of(hits: Map<Seq<char>, u64>, key: Seq<char>) -> Option<u64> {
    if hits.dom().contains(key) {
        Some(hits[key])
    } else {
        None
    }
}

/// Whether a knock at `now` comes within the cooldown of the last one.
pub open spec fn on_cooldown(last: Option<u64>, now: u64) -> bool {
    match last {
        Some(t) => now < t + COOLDOWN_NS,
        None => false,
    }
}

/// The cooldown table is a `dashmap::DashMap`, keyed by `{user}:{room}`.
#[verifier::external_type_specification]
#[verifier::external_body]
#[verifier::reject_recursive_types(K)]
#[verifier::reject_recursive_types(V)]
#[verifier::reject_recursive_types(S)]
pub struct ExDashMap<K, V, S>(dashmap::DashMap<K, V, S>);

/// What a table holds: for each key, the time of the last counted knock.
pub uninterp spec fn hit_table(m: DashMap<String, u64>) -> Map<Seq<char>, u64>;

/// The table of a game in which nobody has knocked.
pub open spec fn no_hits() -> Map<Seq<char>, u64> {
    Map::empty()
}

/// A new table (`DashMap::new`, dashmap-6.2.1 src/lib.rs:134), which holds
/// nothing.
#[verifier::external_body]
fn table_new() -> (r: DashMap<String, u64>)
    ensures
        hit_table(r) == no_hits(),
{
    DashMap::new()
}

/// The value stored under `key`, copied out of the guard that `DashMap::get`
/// (src/lib.rs:582) returns; nothing when the key is absent.
#[verifier::external_body]
fn table_get(m: &DashMap<String, u64>, key: &String) -> (r: Option<u64>)
    ensures
        r == (if hit_table(*m).dom().contains(key@) {
            Some(hit_table(*m)[key@])
        } else {
            None::<u64>
        }),
{
    m.get(key).map(|e| *e)
}

/// Stores `value` under `key` (`DashMap::insert`, src/lib.rs:472), replacing
/// what the key held; other keys keep theirs. No guard of the table is held
/// when it is called, so the call does not block.
#[verifier::external_body]
fn table_insert(m: &mut DashMap<String, u64>, key: String, value: u64)
    ensures
        hit_table(*final(m)) == hit_table(*old(m)).insert(key@, value),
{
    m.insert(key, value);
}

/// Game state kept between knocks: when each user last knocked in each room,
/// and the drop table.
pub struct MuyuLogic {
    last_hit_times: DashMap<String, u64>,
    drop_table: DropTable,
}

impl MuyuLogic {
    /// The table of last knocks, keyed by `{user}:{room}`.
    pub closed spec fn last_hits(&self) -> Map<Seq<char>, u64> {
        hit_table(self.last_hit_times)
    }

    /// Internal consistency.
    pub closed spec fn wf(&self) -> bool {
        self.drop_table.wf()
    }

    /// Weights of the drop table.
    pub closed spec fn drop_weights(&self) -> Seq<u32> {
        self.drop_table.weights()
    }

    /// A fresh game: nobody has knocked, the standard drop table.
    pub fn new() -> (r: Self)
        ensures
            r.wf(),
            r.last_hits() == Map::<Seq<char>, u64>::empty(),
    {
        MuyuLogic { last_hit_times: table_new(), drop_table: DropTable::default() }
    }

    /// The drop table.
    pub fn drop_table(&self) -> (r: &DropTable)
        requires
            self.wf(),
        ensures
            r.wf(),
            r.weights() == self.drop_weights(),
    {
        &self.drop_table
    }

    /// Admits or refuses a knock of `user_id` in `room_id` at `now_ns` (a
    /// monotonic clock in nanoseconds). A knock less than 500 ms after the
    /// last counted one is refused and changes nothing; an admitted knock
    /// becomes the last counted one.
    pub fn try_hit(&mut self, user_id: &str, room_id: &str, now_ns: u64) -> (admitted: bool)
        requires
            old(self).wf(),
        ensures
            final(self).wf(),
            final(self).drop_weights() == old(self).drop_weights(),
            admitted == !on_cooldown(
                last_hit_of(old(self).last_hits(), cooldown_key_spec(user_id@, room_id@)),
                now_ns,
            ),
            admitted ==> final(self).last_hits() == old(self).last_hits().insert(
                cooldown_key_spec(user_id@, room_id@),
                now_ns,
            ),
            !admitted ==> final(self).last_hits() == old(self).last_hits(),
    {
        let mut key = owned(user_id);
        push_str(&mut key, ":");
        push_str(&mut key, room_id);
        assert(key@ == cooldown_key_spec(user_id@, room_id@));
        match table_get(&self.last_hit_times, &key) {
            Some(last) => {
                if now_ns < last || now_ns - last < COOLDOWN_NS {
                    return false;
                }
            },
            None => {},
        }
        table_insert(&mut self.last_hit_times, key, now_ns);
        true
    }

    /// A critical knock: a draw below 10000 falls below 100.
    pub fn roll_critical() -> (r: bool)
        ensures
            exists|draw: u32| draw < 10000 && r == #[trigger] critical_draw(draw),
    {
        critical_from_draw(random_below(10000))
    }

    /// Whether an item drops, for a draw below 10000.
    pub fn roll_drop(is_critical: bool) -> (r: bool)
        ensures
            exists|draw: u32| draw < 10000 && r == #[trigger] drop_draw(is_critical, draw),
    {
        drop_from_draw(is_critical, random_below(10000))
    }
}

/// Whether a draw makes the knock critical: it falls below 100.
pub open spec fn critical_draw(draw: u32) -> bool {
    draw < CRITICAL_PER_TEN_THOUSAND
}

/// Whether a draw makes an item drop: it falls below the rate of the knock.
pub open spec fn drop_draw(is_critical: bool, draw: u32) -> bool {
    draw < (if is_critical {
        CRITICAL_DROP_PER_TEN_THOUSAND
    } else {
        DROP_PER_TEN_THOUSAND
    })
}

/// A draw below 10000 makes the knock critical when it falls below 100.
pub fn critical_from_draw(draw: u32) -> (r: bool)
    ensures
        r == critical_draw(draw),
{
    draw < CRITICAL_PER_TEN_THOUSAND
}

/// A draw below 10000 makes an item drop when it falls below the rate:
/// 5000 on a critical knock, 1000 otherwise.
pub fn drop_from_draw(is_critical: bool, draw: u32) -> (r: bool)
    ensures
        r == drop_draw(is_critical, draw),
{
    let rate = if is_critical {
        CRITICAL_DROP_PER_TEN_THOUSAND
    } else {
        DROP_PER_TEN_THOUSAND
    };
    draw < rate
}

/// A knock admitted at `t` makes every knock of the same user in the same
/// room before `t` + 500 ms a refused one, and leaves other users and rooms
/// as they were.
pub proof fn law_cooldown_after_admitted_knock(
    hits: Map<Seq<char>, u64>,
    key: Seq<char>,
    other: Seq<char>,
    t: u64,
    later: u64,
)
    requires
        t <= later < t + COOLDOWN_NS,
        other != key,
    ensures
        on_cooldown(last_hit_of(hits.insert(key, t), key), later),
        last_hit_of(hits.insert(key, t), other) == last_hit_of(hits, other),
{
}

/// A knock 500 ms or more after the last counted one is always admitted.
pub proof fn law_cooldown_expires(hits: Map<Seq<char>, u64>, key: Seq<char>, later: u64)
    requires
        last_hit_of(hits, key) matches Some(t) && later >= t + COOLDOWN_NS,
    ensures
        !on_cooldown(last_hit_of(hits, key), later),
{
}

// ---------------------------------------------------------------------------
// Combo and merit
// ---------------------------------------------------------------------------
/// The combo of a knock at `now` (nanoseconds since the epoch) and whether
/// the stored combo is reset first: the first knock ever has combo 1; a
/// knock more than 60 whole seconds after the previous one restarts at 1;
/// any other continues the stored combo.
pub open spec fn combo_spec(record: Option<MeritRecord>, now: i64) -> (int, bool) {
    match record {
        None => (1, false),
        Some(r) => {
            let expired = match r.last_hit {
                Some(t) => now - t >= (COMBO_WINDOW_SECS + 1) * 1_000_000_000,
                None => false,
            };
            if expired {
                (1, true)
            } else {
                (r.combo + 1, false)
            }
        },
    }
}

/// Multiplier of a combo, in tenths: three from 20 on, one and a half from
/// 5 on, one below.
pub open spec fn multiplier_spec(combo: int) -> int {
    if combo >= 20 {
        30
    } else if combo >= 5 {
        15
    } else {
        10
    }
}

/// Merit of a knock: 100 when critical, 1 otherwise, times the multiplier,
/// rounded down.
pub open spec fn merit_spec(is_critical: bool, tenths: int) -> int {
    (if is_critical {
        100int
    } else {
        1int
    }) * tenths / 10
}

/// The decisions of an admitted knock.
#[derive(Debug, Clone, Copy, PartialEq, Eq, Structural)]
pub struct HitPlan {
    /// Combo after the knock.
    pub new_combo: i32,
    /// Whether the stored combo is reset before the knock is recorded.
    pub reset_combo: bool,
    /// Whether the knock is critical.
    pub is_critical: bool,
    /// Combo multiplier, in tenths.
    pub combo_multiplier_tenths: u32,
    /// Merit earned.
    pub merit_gained: i64,
}

/// Combo multiplier, in tenths.
pub fn combo_multiplier(combo: i32) -> (r: u32)
    ensures
        r == multiplier_spec(combo as int),
{
    if combo >= 20 {
        30
    } else if combo >= 5 {
        15
    } else {
        10
    }
}

/// The combo of a knock at `now_ns` and whether the stored one is reset.
pub fn calculate_combo(record: &Option<MeritRecord>, now_ns: i64) -> (r: (i32, bool))
    requires
        record matches Some(rec) ==> rec.combo < i32::MAX,
    ensures
        (r.0 as int, r.1) == combo_spec(*record, now_ns),
{
    match record {
        None => (1, false),
        Some(r) => {
            let expired = match r.last_hit {
                Some(t) => (now_ns as i128) - (t as i128) >= 61_000_000_000i128,
                None => false,
            };
            if expired {
                (1, true)
            } else {
                (r.combo + 1, false)
            }
        },
    }
}

/// Plans an admitted knock at `now_ns` on the stored record.
pub fn plan_hit(record: &Option<MeritRecord>, now_ns: i64, is_critical: bool) -> (r: HitPlan)
    requires
        record matches Some(rec) ==> rec.combo < i32::MAX,
    ensures
        (r.new_combo as int, r.reset_combo) == combo_spec(*record, now_ns),
        r.is_critical == is_critical,
        r.combo_multiplier_tenths == multiplier_spec(r.new_combo as int),
        r.merit_gained == merit_spec(is_critical, r.combo_multiplier_tenths as int),
        r.merit_gained >= 1,
{
    let (new_combo, reset_combo) = calculate_combo(record, now_ns);
    let tenths = combo_multiplier(new_combo);
    let merit_gained: i64 = if is_critical {
        (tenths as i64) * 100 / 10
    } else {
        (tenths as i64) / 10
    };
    HitPlan {
        new_combo,
        reset_combo,
        is_critical,
        combo_multiplier_tenths: tenths,
        merit_gained,
    }
}

/// Whether a stored record was last knocked on day `today`.
pub open spec fn same_day(record: MeritRecord, today: i32) -> bool {
    record.last_hit_date == Some(today)
}

/// The record of a knock planned by `plan` at `now_ns` on day `today`, given
/// the record before it (none for the user's first knock in the room).
///
/// The total grows by the merit gained; today's merit and knocks add up
/// within a day and start again on a new one; the combo is the planned one
/// and the longest combo keeps the maximum; a critical knock is counted; a
/// knock on a new day adds a day to the count of days. A first knock starts
/// the record with the merit gained, one knock, one day and (as stored)
/// today's merit 1.
pub open spec fn record_after_hit(
    record: Option<MeritRecord>,
    plan: HitPlan,
    now_ns: i64,
    today: i32,
) -> (i64, i64, i32, i32, i32, i64, i32) {
    let crit: i64 = if plan.is_critical { 1 } else { 0 };
    match record {
        None => (plan.merit_gained, 1, 1, plan.new_combo, plan.new_combo, crit, 1),
        Some(r) => {
            let same = same_day(r, today);
            (
                (r.merit_total + plan.merit_gained) as i64,
                if same { (r.merit_today + plan.merit_gained) as i64 } else { plan.merit_gained },
                if same { (r.hits_today + 1) as i32 } else { 1 },
                plan.new_combo,
                if r.max_combo >= plan.new_combo { r.max_combo } else { plan.new_combo },
                (r.critical_count + crit) as i64,
                if same { r.consecutive_days } else { (r.consecutive_days + 1) as i32 },
            )
        },
    }
}

/// The counters of a record: total, today's merit, today's knocks, combo,
/// longest combo, critical knocks and days.
pub open spec fn counters(r: MeritRecord) -> (i64, i64, i32, i32, i32, i64, i32) {
    (r.merit_total, r.merit_today, r.hits_today, r.combo, r.max_combo, r.critical_count, r.consecutive_days)
}

/// Whether the counters of `record` leave room for one more knock of
/// `merit` merit.
pub open spec fn room_for_hit(record: Option<MeritRecord>, merit: i64) -> bool {
    record matches Some(r) ==> {
        &&& r.merit_total + merit <= i64::MAX
        &&& r.merit_today + merit <= i64::MAX
        &&& r.hits_today < i32::MAX
        &&& r.critical_count < i64::MAX
        &&& r.consecutive_days < i32::MAX
    }
}

/// Whether one more knock of `merit` merit fits in the record's counters
/// (see [`room_for_hit`]).
pub fn can_record_hit(record: &Option<MeritRecord>, merit: i64) -> (r: bool)
    ensures
        r == room_for_hit(*record, merit),
{
    match record {
        None => true,
        Some(rec) => {
            (merit <= 0 || rec.merit_total <= i64::MAX - merit) && (merit <= 0 || rec.merit_today
                <= i64::MAX - merit) && rec.hits_today < i32::MAX
                && rec.critical_count < i64::MAX && rec.consecutive_days < i32::MAX
        },
    }
}

/// The record after a knock (see [`record_after_hit`]), for `user_id` in
/// `room_id`, last knocked at `now_ns` on day `today`.
pub fn apply_hit(
    record: &Option<MeritRecord>,
    user_id: &str,
    room_id: &str,
    plan: &HitPlan,
    now_ns: i64,
    today: i32,
) -> (r: MeritRecord)
    requires
        room_for_hit(*record, plan.merit_gained),
        plan.merit_gained >= 0,
    ensures
        counters(r) == record_after_hit(*record, *plan, now_ns, today),
        r.user_id@ == user_id@,
        r.room_id@ == room_id@,
        r.last_hit == Some(now_ns),
        r.last_hit_date == Some(today),
{
    let crit: i64 = if plan.is_critical { 1 } else { 0 };
    match record {
        None => MeritRecord {
            user_id: owned(user_id),
            room_id: owned(room_id),
            merit_total: plan.merit_gained,
            merit_today: 1,
            hits_today: 1,
            last_hit: Some(now_ns),
            combo: plan.new_combo,
            max_combo: plan.new_combo,
            critical_count: crit,
            consecutive_days: 1,
            last_hit_date: Some(today),
        },
        Some(old) => {
            let same = match old.last_hit_date {
                Some(d) => d == today,
                None => false,
            };
            MeritRecord {
                user_id: owned(user_id),
                room_id: owned(room_id),
                merit_total: old.merit_total + plan.merit_gained,
                merit_today: if same {
                    old.merit_today + plan.merit_gained
                } else {
                    plan.merit_gained
                },
                hits_today: if same {
                    old.hits_today + 1
                } else {
                    1
                },
                last_hit: Some(now_ns),
                combo: plan.new_combo,
                max_combo: if old.max_combo >= plan.new_combo {
                    old.max_combo
                } else {
                    plan.new_combo
                },
                critical_count: old.critical_count + crit,
                consecutive_days: if same {
                    old.consecutive_days
                } else {
                    old.consecutive_days + 1
                },
                last_hit_date: Some(today),
            }
        },
    }
}

/// A knock adds exactly the merit it earned to the total, and the total
/// never falls.
pub proof fn law_knock_adds_its_merit(record: MeritRecord, plan: HitPlan, now_ns: i64, today: i32)
    requires
        room_for_hit(Some(record), plan.merit_gained),
        plan.merit_gained >= 1,
    ensures
        record_after_hit(Some(record), plan, now_ns, today).0 == record.merit_total + plan.merit_gained,
        record_after_hit(Some(record), plan, now_ns, today).0 > record.merit_total,
        record_after_hit(None, plan, now_ns, today).0 == plan.merit_gained,
{
}

/// The total merit of a record before a knock: none for a first knock.
pub open spec fn total_before(record: Option<MeritRecord>) -> int {
    match record {
        None => 0,
        Some(r) => r.merit_total as int,
    }
}

/// One whole knock, as [`plan_hit`] plans it and [`apply_hit`] records it:
/// the combo goes on within 60 seconds of the last knock and starts again
/// at 1 otherwise, the multiplier follows the combo (1, 1.5 from 5, 3 from
/// 20), the merit is 1 or (critical) 100 times the multiplier, rounded
/// down, and the total grows by exactly that merit.
pub proof fn law_one_knock(record: Option<MeritRecord>, now_ns: i64, is_critical: bool, plan: HitPlan, today: i32)
    requires
        (plan.new_combo as int, plan.reset_combo) == combo_spec(record, now_ns),
        plan.is_critical == is_critical,
        plan.combo_multiplier_tenths == multiplier_spec(plan.new_combo as int),
        plan.merit_gained == merit_spec(is_critical, plan.combo_multiplier_tenths as int),
        room_for_hit(record, plan.merit_gained),
    ensures
        record_after_hit(record, plan, now_ns, today).3 == combo_spec(record, now_ns).0,
        record_after_hit(record, plan, now_ns, today).0 == total_before(record) + merit_spec(
            is_critical,
            multiplier_spec(combo_spec(record, now_ns).0),
        ),
        merit_spec(is_critical, multiplier_spec(combo_spec(record, now_ns).0)) >= 1,
{
}

/// What one knock does to a stored record: the total and (within the same
/// day) today's merit grow by the merit gained, today's knocks by one; on a
/// new day today's merit is the merit gained, today's knocks one, and the
/// day count grows by one; the combo becomes the planned combo; the longest
/// combo never falls and is at least the new combo; a critical knock adds
/// one to the critical count and any other knock leaves it. A first knock
/// starts every counter from that knock (today's merit is stored as 1).
pub proof fn law_knock_updates_record(r: MeritRecord, plan: HitPlan, now_ns: i64, today: i32)
    requires
        room_for_hit(Some(r), plan.merit_gained),
        plan.merit_gained >= 0,
    ensures
        ({
            let n = record_after_hit(Some(r), plan, now_ns, today);
            &&& n.0 == r.merit_total + plan.merit_gained
            &&& r.last_hit_date == Some(today) ==> n.1 == r.merit_today + plan.merit_gained && n.2 == r.hits_today + 1
                && n.6 == r.consecutive_days
            &&& r.last_hit_date != Some(today) ==> n.1 == plan.merit_gained && n.2 == 1 && n.6 == r.consecutive_days + 1
            &&& n.3 == plan.new_combo
            &&& n.4 >= r.max_combo
            &&& n.4 >= plan.new_combo
            &&& (n.4 == r.max_combo || n.4 == plan.new_combo)
            &&& n.5 == r.critical_count + (if plan.is_critical { 1int } else { 0int })
        }),
        ({
            let f = record_after_hit(None, plan, now_ns, today);
            &&& f.0 == plan.merit_gained
            &&& f.1 == 1
            &&& f.2 == 1
            &&& f.3 == plan.new_combo
            &&& f.4 == plan.new_combo
            &&& f.5 == (if plan.is_critical { 1int } else { 0int })
            &&& f.6 == 1
        }),
{
}

/// The combo rules: a first knock starts a combo of 1; a knock less than
/// 61 seconds after the last one continues the combo; a later one starts
/// again at 1 and resets the stored combo. The multiplier is 1 below a combo
/// of 5, 1.5 from 5 and 3 from 20; a knock earns the multiplier, rounded
/// down, or one hundred times it when critical.
pub proof fn law_combo_and_merit_rules(r: MeritRecord, now_ns: i64, c: int, tenths: int)
    requires
        tenths >= 0,
    ensures
        combo_spec(None, now_ns) == (1int, false),
        r.last_hit is None ==> combo_spec(Some(r), now_ns) == (r.combo + 1, false),
        (r.last_hit matches Some(t) && now_ns - t < 61_000_000_000) ==> combo_spec(Some(r), now_ns) == (
            r.combo + 1,
            false,
        ),
        (r.last_hit matches Some(t) && now_ns - t >= 61_000_000_000) ==> combo_spec(Some(r), now_ns) == (
            1int,
            true,
        ),
        c < 5 ==> multiplier_spec(c) == 10,
        5 <= c < 20 ==> multiplier_spec(c) == 15,
        c >= 20 ==> multiplier_spec(c) == 30,
        merit_spec(false, tenths) == tenths / 10,
        merit_spec(true, tenths) == tenths * 10,
{
}

/// The multiplier never falls as the combo grows.
pub proof fn law_multiplier_monotone(a: int, b: int)
    requires
        a <= b,
    ensures
        multiplier_spec(a) <= multiplier_spec(b),
        10 <= multiplier_spec(a) <= 30,
{
}

/// Every admitted knock earns merit: at least 1, at least 100 when
/// critical, and never less for a longer combo.
pub proof fn law_admitted_knock_earns(is_critical: bool, a: int, b: int)
    requires
        a <= b,
    ensures
        merit_spec(is_critical, multiplier_spec(a)) >= (if is_critical {
            100int
        } else {
            1int
        }),
        merit_spec(is_critical, multiplier_spec(a)) <= merit_spec(is_critical, multiplier_spec(b)),
{
}

impl HitResult {
    /// The outcome of a refused knock: nothing gained, nothing shown.
    pub fn cooldown() -> (r: HitResult)
        ensures
            r.merit_gained == 0,
            r.merit_total == 0,
            r.new_combo == 0,
            !r.is_critical,
            r.combo_multiplier_tenths == 10,
            r.dropped_item is None,
            r.unlocked_titles@.len() == 0,
    {
        HitResult {
            merit_gained: 0,
            merit_total: 0,
            new_combo: 0,
            is_critical: false,
            combo_multiplier_tenths: 10,
            dropped_item: None,
            unlocked_titles: Vec::new(),
        }
    }

    /// The outcome of an admitted knock, once it is recorded.
    pub fn from_plan(
        plan: &HitPlan,
        merit_total: i64,
        dropped_item: Option<DropItem>,
        unlocked_titles: Vec<Title>,
    ) -> (r: HitResult)
        ensures
            r.merit_gained == plan.merit_gained,
            r.merit_total == merit_total,
            r.new_combo == plan.new_combo,
            r.is_critical == plan.is_critical,
            r.combo_multiplier_tenths == plan.combo_multiplier_tenths,
            r.dropped_item == dropped_item,
            r.unlocked_titles == unlocked_titles,
    {
        HitResult {
            merit_gained: plan.merit_gained,
            merit_total,
            new_combo: plan.new_combo,
            is_critical: plan.is_critical,
            combo_multiplier_tenths: plan.combo_multiplier_tenths,
            dropped_item,
            unlocked_titles,
        }
    }
}

// ---------------------------------------------------------------------------
// Titles
// ---------------------------------------------------------------------------
/// Whether a record meets a title's condition. The counts kept as 32-bit
/// numbers are compared with the condition value cut to 32 bits.
pub open spec fn meets_condition(record: MeritRecord, title: Title) -> bool {
    match title.condition_kind {
        ConditionKind::TotalMerit => record.merit_total >= title.condition_value,
        ConditionKind::DailyHits => record.hits_today >= title.condition_value as i32,
        ConditionKind::Combo => record.max_combo >= title.condition_value as i32,
        ConditionKind::CriticalHits => record.critical_count >= title.condition_value,
        ConditionKind::ConsecutiveDays => record.consecutive_days >= title.condition_value as i32,
    }
}

/// Whether `record` meets the condition of `title`.
pub fn title_condition_met(record: &MeritRecord, title: &Title) -> (r: bool)
    ensures
        r == meets_condition(*record, *title),
{
    match title.condition_kind {
        ConditionKind::TotalMerit => record.merit_total >= title.condition_value,
        ConditionKind::DailyHits => record.hits_today >= title.condition_value as i32,
        ConditionKind::Combo => record.max_combo >= title.condition_value as i32,
        ConditionKind::CriticalHits => record.critical_count >= title.condition_value,
        ConditionKind::ConsecutiveDays => record.consecutive_days >= title.condition_value as i32,
    }
}

/// Indices of the titles whose condition the record meets, in order.
pub open spec fn met_indices(record: MeritRecord, titles: Seq<Title>) -> Seq<int>
    decreases titles.len(),
{
    if titles.len() == 0 {
        Seq::empty()
    } else {
        let init = met_indices(record, titles.drop_last());
        if meets_condition(record, titles.last()) {
            init.push(titles.len() - 1)
        } else {
            init
        }
    }
}

/// Positions, among `titles`, of those whose condition `record` meets, in order.
pub fn titles_to_unlock(record: &MeritRecord, titles: &Vec<Title>) -> (r: Vec<usize>)
    ensures
        r@.len() == met_indices(*record, titles@).len(),
        forall|k: int| 0 <= k < r@.len() ==> r@[k] as int == met_indices(*record, titles@)[k],
{
    let mut r: Vec<usize> = Vec::new();
    let mut i: usize = 0;
    while i < titles.len()
        invariant
            i <= titles.len(),
            r@.len() == met_indices(*record, titles@.take(i as int)).len(),
            forall|k: int|
                0 <= k < r@.len() ==> r@[k] as int == met_indices(*record, titles@.take(i as int))[k],
        decreases titles.len() - i,
    {
        assert(titles@.take(i + 1).drop_last() =~= titles@.take(i as int));
        if title_condition_met(record, &titles[i]) {
            r.push(i);
        }
        i += 1;
    }
    assert(titles@.take(titles.len() as int) =~= titles@);
    r
}

// ---------------------------------------------------------------------------
// Drop table
// ---------------------------------------------------------------------------
/// Sum of the first `k` weights.
pub open spec fn cumulative(w: Seq<u32>, k: int) -> int
    decreases k,
{
    if k <= 0 {
        0
    } else {
        cumulative(w, k - 1) + w[k - 1]
    }
}

/// Sum of the weights up to and including entry `i`.
pub open spec fn cumulative_through(w: Seq<u32>, i: int) -> int {
    cumulative(w, i + 1)
}

/// The entry that a draw selects: the first whose cumulative weight exceeds
/// the draw, or the last entry for a draw beyond the total.
pub open spec fn pick_index(w: Seq<u32>, draw: int) -> int
    recommends
        w.len() > 0,
{
    if exists|i: int| 0 <= i < w.len() && draw < #[trigger] cumulative_through(w, i) {
        choose|i: int|
            0 <= i < w.len() && draw < #[trigger] cumulative_through(w, i) && (forall|j: int|
                0 <= j < i ==> draw >= #[trigger] cumulative_through(w, j))
    } else {
        w.len() - 1
    }
}

proof fn lemma_cumulative_monotone(w: Seq<u32>, a: int, b: int)
    requires
        0 <= a <= b,
    ensures
        cumulative(w, a) <= cumulative(w, b),
    decreases b - a,
{
    if a < b {
        lemma_cumulative_monotone(w, a, b - 1);
    }
}

proof fn lemma_first_exceeding(w: Seq<u32>, draw: int, from: int) -> (i: int)
    requires
        0 <= from < w.len(),
        forall|j: int| 0 <= j < from ==> draw >= #[trigger] cumulative_through(w, j),
        draw < cumulative(w, w.len() as int),
    ensures
        from <= i < w.len(),
        draw < cumulative_through(w, i),
        forall|j: int| 0 <= j < i ==> draw >= #[trigger] cumulative_through(w, j),
    decreases w.len() - from,
{
    if draw < cumulative_through(w, from) {
        from
    } else {
        lemma_first_exceeding(w, draw, from + 1)
    }
}

/// Items drop by weight: of the draws below the total weight, entry `i` is
/// picked by exactly those from the sum of the weights before it up to (but
/// not including) that sum plus its own weight, so by `w[i]` of them.
pub proof fn law_pick_by_weight(w: Seq<u32>, draw: int, i: int)
    requires
        0 <= draw < cumulative(w, w.len() as int),
        0 <= i < w.len(),
    ensures
        pick_index(w, draw) == i <==> cumulative(w, i) <= draw < cumulative(w, i + 1),
        cumulative(w, i + 1) - cumulative(w, i) == w[i],
{
    let first = lemma_first_exceeding(w, draw, 0);
    assert(0 <= first < w.len() && draw < cumulative_through(w, first));
    let p = pick_index(w, draw);
    assert(0 <= p < w.len() && draw < cumulative_through(w, p));
    assert(forall|j: int| 0 <= j < p ==> draw >= #[trigger] cumulative_through(w, j));
    if p > 0 {
        assert(draw >= cumulative_through(w, p - 1));
    }
    assert(cumulative(w, p) <= draw < cumulative(w, p + 1));
    if cumulative(w, i) <= draw < cumulative(w, i + 1) {
        if i < p {
            assert(draw >= cumulative_through(w, i));
        } else if i > p {
            lemma_cumulative_monotone(w, p + 1, i);
        }
    }
}

/// Items that can drop, with their weights.
#[derive(Debug, Clone)]
pub struct DropTable {
    items: Vec<DropDef>,
}

/// A copy of a drop table entry.
fn copy_def(d: &DropDef) -> (r: DropDef)
    ensures
        r == *d,
{
    DropDef { name: d.name.clone(), icon: d.icon.clone(), rarity: d.rarity, weight: d.weight }
}

fn def(name: &str, icon: &str, rarity: Rarity, weight: u32) -> (r: DropDef)
    ensures
        r.name@ == name@,
        r.icon@ == icon@,
        r.rarity == rarity,
        r.weight == weight,
{
    DropDef { name: owned(name), icon: owned(icon), rarity, weight }
}

impl DropTable {
    /// The weights, in order.
    pub closed spec fn weights(&self) -> Seq<u32> {
        self.items@.map_values(|d: DropDef| d.weight)
    }

    /// The entries.
    pub closed spec fn entries(&self) -> Seq<DropDef> {
        self.items@
    }

    /// At least one entry, and a total weight that is positive and fits in 32 bits.
    pub closed spec fn wf(&self) -> bool {
        &&& self.items@.len() > 0
        &&& 0 < cumulative(self.weights(), self.items@.len() as int) <= u32::MAX
    }

    /// Total weight.
    pub open spec fn total_spec(&self) -> int {
        cumulative(self.weights(), self.weights().len() as int)
    }

    /// Sum of the weights.
    pub fn total(&self) -> (r: u32)
        requires
            self.wf(),
        ensures
            r == self.total_spec(),
            r > 0,
    {
        let ghost w = self.weights();
        let mut acc: u64 = 0;
        let mut i: usize = 0;
        while i < self.items.len()
            invariant
                i <= self.items@.len(),
                w == self.weights(),
                w.len() == self.items@.len(),
                self.wf(),
                acc == cumulative(w, i as int),
            decreases self.items.len() - i,
        {
            proof {
                lemma_cumulative_monotone(w, i + 1, w.len() as int);
            }
            acc = acc + self.items[i].weight as u64;
            i += 1;
        }
        acc as u32
    }

    /// The entry that `draw` selects (see [`pick_index`]).
    pub fn pick(&self, draw: u32) -> (r: DropDef)
        requires
            self.wf(),
        ensures
            r == self.entries()[pick_index(self.weights(), draw as int)],
            draw < self.total_spec() ==> cumulative(
                self.weights(),
                pick_index(self.weights(), draw as int),
            ) <= draw < cumulative(self.weights(), pick_index(self.weights(), draw as int) + 1),
    {
        let ghost w = self.weights();
        let mut acc: u64 = 0;
        let mut i: usize = 0;
        while i < self.items.len()
            invariant
                i <= self.items@.len(),
                w == self.weights(),
                w.len() == self.items@.len(),
                self.wf(),
                acc == cumulative(w, i as int),
                forall|j: int| 0 <= j < i ==> draw >= #[trigger] cumulative_through(w, j),
            decreases self.items.len() - i,
        {
            proof {
                lemma_cumulative_monotone(w, i + 1, w.len() as int);
            }
            acc = acc + self.items[i].weight as u64;
            if (draw as u64) < acc {
                proof {
                    let p = pick_index(w, draw as int);
                    assert(0 <= i < w.len() && draw < cumulative_through(w, i as int));
                    if p != i {
                        if p < i {
                            assert(draw >= cumulative_through(w, p));
                        } else {
                            assert(draw >= cumulative_through(w, i as int));
                        }
                    }
                    if i > 0 {
                        assert(draw >= cumulative_through(w, i - 1));
                    }
                }
                return copy_def(&self.items[i]);
            }
            i += 1;
        }
        proof {
            assert(draw >= cumulative_through(w, w.len() - 1));
            assert(!(exists|k: int| 0 <= k < w.len() && draw < #[trigger] cumulative_through(w, k)));
        }
        copy_def(&self.items[self.items.len() - 1])
    }

    /// Draws an entry by weight.
    pub fn roll(&self) -> (r: DropDef)
        requires
            self.wf(),
        ensures
            exists|draw: int|
                0 <= draw < self.total_spec() && r == self.entries()[pick_index(
                    self.weights(),
                    draw,
                )],
    {
        let total = self.total();
        let draw = random_below(total);
        let r = self.pick(draw);
        assert(0 <= draw < self.total_spec() && r == self.entries()[pick_index(
            self.weights(),
            draw as int,
        )]);
        r
    }
}

impl Default for DropTable {
    /// Two common items of weight 60, two rare of 25, two epic of 12 and
    /// two legendary of 3.
    fn default() -> (r: Self)
        ensures
            r.wf(),
            r.weights() == seq![60u32, 60, 25, 25, 12, 12, 3, 3],
    {
        let mut items: Vec<DropDef> = Vec::new();
        items.push(def("木鱼屑", "✨", Rarity::Common, 60));
        items.push(def("香灰", "💫", Rarity::Common, 60));
        items.push(def("佛珠", "📿", Rarity::Rare, 25));
        items.push(def("莲花", "🪷", Rarity::Rare, 25));
        items.push(def("金钟", "🔔", Rarity::Epic, 12));
        items.push(def("菩提叶", "🍃", Rarity::Epic, 12));
        items.push(def("舍利子", "💎", Rarity::Legendary, 3));
        items.push(def("佛光", "🌈", Rarity::Legendary, 3));
        let r = DropTable { items };
        assert(r.weights() =~= seq![60u32, 60, 25, 25, 12, 12, 3, 3]);
        assert(cumulative(r.weights(), 8) == 200) by {
            reveal_with_fuel(cumulative, 9);
        }
        r
    }
}

} // verus!
