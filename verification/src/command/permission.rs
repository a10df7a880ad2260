//! Permission levels for commands and the rule that decides them.

use vstd::prelude::*;

use crate::text::strs;

verus! {

/// Permission level required by a command, from least to most privileged.
#[derive(Debug, Clone, Copy, PartialEq, Eq, Structural, PartialOrd, Ord, Hash)]
pub enum Permission {
    /// Any member of the room.
    Anyone,
    /// Room moderators (power level 50 or more); in a direct chat every user
    /// counts as one.
    RoomMod,
    /// The bot's owners, as configured.
    BotOwner,
}

/// Whether `user_id` is one of the configured owners (exact, case-sensitive match).
pub open spec fn is_owner(owners: Seq<Seq<char>>, user_id: Seq<char>) -> bool {
    exists|i: int| 0 <= i < owners.len() && owners[i] == user_id
}

/// The power level from which a room member is a moderator.
pub const MODERATOR_POWER_LEVEL: i64 = 50;

/// The rule behind [`Permission::check`].
pub open spec fn allows(p: Permission, is_direct: bool, power_level: i64, owners: Seq<Seq<char>>, user_id: Seq<char>) -> bool {
    match p {
        Permission::Anyone => true,
        Permission::RoomMod => is_direct || power_level >= MODERATOR_POWER_LEVEL,
        Permission::BotOwner => is_owner(owners, user_id),
    }
}

impl Permission {
    /// Whether a user holds this permission.
    ///
    /// `is_direct` says whether the room is a direct chat and `power_level`
    /// is the user's power level in the room; both are looked up by the
    /// caller.  `Anyone` always passes, `RoomMod` passes in direct chats and
    /// for users of power level 50 or more, `BotOwner` passes when the user
    /// ID is one of `bot_owners`.
    pub fn check(&self, is_direct: bool, power_level: i64, user_id: &str, bot_owners: &Vec<String>) -> (r: bool)
        ensures
            r == allows(*self, is_direct, power_level, strs(bot_owners@), user_id@),
    {
        match self {
            Permission::Anyone => true,
            Permission::RoomMod => is_direct || power_level >= MODERATOR_POWER_LEVEL,
            Permission::BotOwner => {
                let ghost owners = strs(bot_owners@);
                let mut i: usize = 0;
                while i < bot_owners.len()
                    invariant
                        i <= bot_owners.len(),
                        owners == strs(bot_owners@),
                        *self == Permission::BotOwner,
                        forall|k: int| 0 <= k < i ==> owners[k] != user_id@,
                    decreases bot_owners.len() - i,
                {
                    if crate::text::str_eq(bot_owners[i].as_str(), user_id) {
                        assert(owners.len() == bot_owners@.len());
                        assert(owners[i as int] == user_id@);
                        assert(is_owner(owners, user_id@));
                        return true;
                    }
                    i += 1;
                }
                false
            }
        }
    }

    /// Display name of the level, used in help and error messages.
    pub fn display_name(&self) -> (r: &'static str)
        ensures
            r@ == display_name_of(*self),
    {
        match self {
            Permission::Anyone => "任何人",
            Permission::RoomMod => "房间管理员",
            Permission::BotOwner => "Bot 所有者",
        }
    }
}

/// The display names of the permission levels.
pub open spec fn display_name_of(p: Permission) -> Seq<char> {
    match p {
        Permission::Anyone => "任何人"@,
        Permission::RoomMod => "房间管理员"@,
        Permission::BotOwner => "Bot 所有者"@,
    }
}

/// The three levels: anyone may run an open command; a moderator command
/// runs in direct chats and for users of power level 50 or more; an owner
/// command runs for the configured owners and for nobody else, whatever the
/// room or power level.
pub proof fn law_permission_levels(is_direct: bool, power_level: i64, owners: Seq<Seq<char>>, user: Seq<char>)
    ensures
        allows(Permission::Anyone, is_direct, power_level, owners, user),
        allows(Permission::RoomMod, is_direct, power_level, owners, user) <==> (is_direct || power_level >= 50),
        allows(Permission::BotOwner, is_direct, power_level, owners, user) <==> owners.contains(user),
        owners.len() == 0 ==> !allows(Permission::BotOwner, is_direct, power_level, owners, user),
{
    if is_owner(owners, user) {
        let i = choose|i: int| 0 <= i < owners.len() && owners[i] == user;
        assert(owners[i] == user);
    }
    if owners.contains(user) {
        let i = choose|i: int| 0 <= i < owners.len() && owners[i] == user;
        assert(is_owner(owners, user));
    }
}

} // verus!
