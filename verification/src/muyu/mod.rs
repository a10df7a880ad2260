//! The cyber wooden fish game: knocking earns merit, combos multiply it,
//! lucky knocks are critical, items drop and titles unlock.

pub mod models;
pub mod logic;
pub mod views;

pub use logic::{DropTable, HitPlan, MuyuLogic};
pub use models::{ConditionKind, DropDef, DropItem, HitResult, LeaderboardEntry, MeritRecord, Rarity, Title, UserTitle};
