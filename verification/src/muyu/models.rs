//! Data of the wooden fish game.
//!
//! Points in time are nanoseconds since the Unix epoch; calendar days are
//! day numbers counted from the first day of the common era.

use vstd::prelude::*;

use crate::text::{owned, push_str, str_eq};

verus! {

/// Merit of one user in one room.
#[derive(Debug, Clone)]
pub struct MeritRecord {
    /// Matrix id of the user.
    pub user_id: String,
    /// Matrix id of the room.
    pub room_id: String,
    /// All merit ever earned.
    pub merit_total: i64,
    /// Merit earned today.
    pub merit_today: i64,
    /// Knocks today.
    pub hits_today: i32,
    /// Time of the last knock.
    pub last_hit: Option<i64>,
    /// Current combo.
    pub combo: i32,
    /// Longest combo.
    pub max_combo: i32,
    /// Number of critical knocks.
    pub critical_count: i64,
    /// Days on which the user knocked.
    pub consecutive_days: i32,
    /// Day of the last knock.
    pub last_hit_date: Option<i32>,
}

/// What a title asks for.
#[derive(Debug, Clone, Copy, PartialEq, Eq, Structural)]
pub enum ConditionKind {
    /// Total merit.
    TotalMerit,
    /// Knocks in one day.
    DailyHits,
    /// Longest combo.
    Combo,
    /// Critical knocks.
    CriticalHits,
    /// Days of knocking.
    ConsecutiveDays,
}

/// How rare a title or an item is.
#[derive(Debug, Clone, Copy, PartialEq, Eq, Structural)]
pub enum Rarity {
    Common,
    Rare,
    Epic,
    Legendary,
}

/// A title that can be unlocked.
#[derive(Debug, Clone)]
pub struct Title {
    /// Id of the title.
    pub id: i64,
    /// Name.
    pub name: String,
    /// Description.
    pub description: Option<String>,
    /// Icon.
    pub icon: Option<String>,
    /// What the condition counts.
    pub condition_kind: ConditionKind,
    /// The count that unlocks the title.
    pub condition_value: i64,
    /// Rarity.
    pub rarity: Rarity,
}

/// An item in a user's bag.
#[derive(Debug, Clone)]
pub struct DropItem {
    /// Row id.
    pub id: i64,
    /// Owner.
    pub user_id: String,
    /// Room.
    pub room_id: String,
    /// Name of the item.
    pub item_name: String,
    /// Icon of the item.
    pub item_icon: Option<String>,
    /// Rarity.
    pub rarity: Rarity,
    /// When it dropped.
    pub obtained_at: i64,
}

/// An entry of the drop table.
#[derive(Debug, Clone)]
pub struct DropDef {
    /// Name of the item.
    pub name: String,
    /// Icon of the item.
    pub icon: String,
    /// Rarity.
    pub rarity: Rarity,
    /// Relative weight in the table.
    pub weight: u32,
}

/// Outcome of one knock.
#[derive(Debug, Clone)]
pub struct HitResult {
    /// Merit earned; zero when the knock came too soon after the previous one.
    pub merit_gained: i64,
    /// Total merit after the knock.
    pub merit_total: i64,
    /// Combo after the knock.
    pub new_combo: i32,
    /// Whether the knock was critical.
    pub is_critical: bool,
    /// Combo multiplier, in tenths.
    pub combo_multiplier_tenths: u32,
    /// Item that dropped.
    pub dropped_item: Option<DropItem>,
    /// Titles unlocked by the knock.
    pub unlocked_titles: Vec<Title>,
}

/// A title of a user.
#[derive(Debug, Clone)]
pub struct UserTitle {
    /// The title.
    pub title: Title,
    /// Whether it is worn.
    pub equipped: bool,
    /// When it was unlocked.
    pub obtained_at: Option<i64>,
}

/// A row of the merit ranking.
#[derive(Debug, Clone)]
pub struct LeaderboardEntry {
    /// User.
    pub user_id: String,
    /// Total merit.
    pub merit_total: i64,
    /// Title the user wears.
    pub equipped_title: Option<Title>,
}

/// Stored name of a condition kind.
pub open spec fn condition_name(k: ConditionKind) -> Seq<char> {
    match k {
        ConditionKind::TotalMerit => "total_merit"@,
        ConditionKind::DailyHits => "daily_hits"@,
        ConditionKind::Combo => "combo"@,
        ConditionKind::CriticalHits => "critical_hits"@,
        ConditionKind::ConsecutiveDays => "consecutive_days"@,
    }
}

/// Stored name of a rarity.
pub open spec fn rarity_name(r: Rarity) -> Seq<char> {
    match r {
        Rarity::Common => "common"@,
        Rarity::Rare => "rare"@,
        Rarity::Epic => "epic"@,
        Rarity::Legendary => "legendary"@,
    }
}

/// Display colour of a rarity.
pub open spec fn rarity_color(r: Rarity) -> Seq<char> {
    match r {
        Rarity::Common => "#808080"@,
        Rarity::Rare => "#4a90d9"@,
        Rarity::Epic => "#a855f7"@,
        Rarity::Legendary => "#f0c060"@,
    }
}

/// Display name of a rarity.
pub open spec fn rarity_label(r: Rarity) -> Seq<char> {
    match r {
        Rarity::Common => "普通"@,
        Rarity::Rare => "稀有"@,
        Rarity::Epic => "史诗"@,
        Rarity::Legendary => "传说"@,
    }
}

impl ConditionKind {
    /// Stored name: `total_merit`, `daily_hits`, `combo`, `critical_hits`
    /// or `consecutive_days`.
    pub fn as_str(&self) -> (r: &'static str)
        ensures
            r@ == condition_name(*self),
    {
        match self {
            ConditionKind::TotalMerit => "total_merit",
            ConditionKind::DailyHits => "daily_hits",
            ConditionKind::Combo => "combo",
            ConditionKind::CriticalHits => "critical_hits",
            ConditionKind::ConsecutiveDays => "consecutive_days",
        }
    }

    /// The kind whose stored name is `s`; otherwise the error
    /// `Unknown condition kind: {s}`.
    pub fn parse(s: &str) -> (r: Result<ConditionKind, String>)
        ensures
            r matches Ok(k) ==> condition_name(k) == s@,
            r is Err <==> (forall|k: ConditionKind| condition_name(k) != s@),
            r matches Err(m) ==> m@ == "Unknown condition kind: "@ + s@,
    {
        if str_eq(s, "total_merit") {
            assert(condition_name(ConditionKind::TotalMerit) == s@);
            Ok(ConditionKind::TotalMerit)
        } else if str_eq(s, "daily_hits") {
            assert(condition_name(ConditionKind::DailyHits) == s@);
            Ok(ConditionKind::DailyHits)
        } else if str_eq(s, "combo") {
            assert(condition_name(ConditionKind::Combo) == s@);
            Ok(ConditionKind::Combo)
        } else if str_eq(s, "critical_hits") {
            assert(condition_name(ConditionKind::CriticalHits) == s@);
            Ok(ConditionKind::CriticalHits)
        } else if str_eq(s, "consecutive_days") {
            assert(condition_name(ConditionKind::ConsecutiveDays) == s@);
            Ok(ConditionKind::ConsecutiveDays)
        } else {
            let mut m = owned("Unknown condition kind: ");
            push_str(&mut m, s);
            assert forall|k: ConditionKind| condition_name(k) != s@ by {
                match k {
                    ConditionKind::TotalMerit => {},
                    ConditionKind::DailyHits => {},
                    ConditionKind::Combo => {},
                    ConditionKind::CriticalHits => {},
                    ConditionKind::ConsecutiveDays => {},
                }
            }
            Err(m)
        }
    }
}

impl Rarity {
    /// Display colour (an HTML colour code).
    pub fn color(&self) -> (r: &'static str)
        ensures
            r@ == rarity_color(*self),
    {
        match self {
            Rarity::Common => "#808080",
            Rarity::Rare => "#4a90d9",
            Rarity::Epic => "#a855f7",
            Rarity::Legendary => "#f0c060",
        }
    }

    /// Display name.
    pub fn display_name(&self) -> (r: &'static str)
        ensures
            r@ == rarity_label(*self),
    {
        match self {
            Rarity::Common => "普通",
            Rarity::Rare => "稀有",
            Rarity::Epic => "史诗",
            Rarity::Legendary => "传说",
        }
    }

    /// Stored name: `common`, `rare`, `epic` or `legendary`.
    pub fn as_str(&self) -> (r: &'static str)
        ensures
            r@ == rarity_name(*self),
    {
        match self {
            Rarity::Common => "common",
            Rarity::Rare => "rare",
            Rarity::Epic => "epic",
            Rarity::Legendary => "legendary",
        }
    }

    /// The rarity whose stored name is `s`; otherwise the error
    /// `Unknown rarity: {s}`.
    pub fn parse(s: &str) -> (r: Result<Rarity, String>)
        ensures
            r matches Ok(k) ==> rarity_name(k) == s@,
            r is Err <==> (forall|k: Rarity| rarity_name(k) != s@),
            r matches Err(m) ==> m@ == "Unknown rarity: "@ + s@,
    {
        if str_eq(s, "common") {
            assert(rarity_name(Rarity::Common) == s@);
            Ok(Rarity::Common)
        } else if str_eq(s, "rare") {
            assert(rarity_name(Rarity::Rare) == s@);
            Ok(Rarity::Rare)
        } else if str_eq(s, "epic") {
            assert(rarity_name(Rarity::Epic) == s@);
            Ok(Rarity::Epic)
        } else if str_eq(s, "legendary") {
            assert(rarity_name(Rarity::Legendary) == s@);
            Ok(Rarity::Legendary)
        } else {
            let mut m = owned("Unknown rarity: ");
            push_str(&mut m, s);
            assert forall|k: Rarity| rarity_name(k) != s@ by {
                match k {
                    Rarity::Common => {},
                    Rarity::Rare => {},
                    Rarity::Epic => {},
                    Rarity::Legendary => {},
                }
            }
            Err(m)
        }
    }
}

} // verus!
