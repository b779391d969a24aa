//! The bot's decisions around the dice: which command a name runs, how the
//! shards are laid out, how guilds are attributed to shards, and what
//! `/purge` does for a request.

use vstd::prelude::*;
use crate::commands::CommandResponse;
use crate::dice::arith::wdiv;
use crate::dice::systems::wrem;
use crate::text::{nat_str, push_nat};

verus! {

// ---------------------------------------------------------------------------
// Commands
// ---------------------------------------------------------------------------

/// The slash command a name runs.
pub enum CommandKind {
    Roll,
    Help,
    Purge,
    Unknown,
}

pub open spec fn command_kind_of(name: Seq<char>) -> CommandKind {
    if name == "roll"@ || name == "r"@ {
        CommandKind::Roll
    } else if name == "help"@ {
        CommandKind::Help
    } else if name == "purge"@ {
        CommandKind::Purge
    } else {
        CommandKind::Unknown
    }
}

/// `/roll` and its short form `/r` roll; `/help` and `/purge` are their own.
pub fn command_kind(name: &str) -> (k: CommandKind)
    ensures
        k == command_kind_of(name@),
{
    let cs = crate::text::str_chars(name);
    if crate::text::chars_eq_str(cs.as_slice(), "roll") || crate::text::chars_eq_str(cs.as_slice(), "r") {
        CommandKind::Roll
    } else if crate::text::chars_eq_str(cs.as_slice(), "help") {
        CommandKind::Help
    } else if crate::text::chars_eq_str(cs.as_slice(), "purge") {
        CommandKind::Purge
    } else {
        CommandKind::Unknown
    }
}

/// The reply to a command the bot does not know.
pub fn unknown_command_response() -> (r: CommandResponse)
    ensures
        r.content@ == "Unknown command"@,
        !r.ephemeral,
{
    CommandResponse::public(String::from_str("Unknown command"))
}

/// The reply when a command failed.
pub fn command_error_response() -> (r: CommandResponse)
    ensures
        r.content@ == "An error occurred while executing the command."@,
        !r.ephemeral,
{
    CommandResponse::public(String::from_str("An error occurred while executing the command."))
}

// ---------------------------------------------------------------------------
// Shards
// ---------------------------------------------------------------------------

/// How the shards of this process are started.
pub enum ShardStrategy {
    /// One shard.
    Single,
    /// As many shards as Discord recommends, managed by the gateway library.
    Autoshard,
    /// A fixed number of shards, all in this process.
    Manual,
    /// A range of the shards, the others run by other processes.
    MultiProcess,
}

pub struct ShardPlan {
    pub strategy: ShardStrategy,
    pub shard_count: u32,
    pub shard_start: u32,
    pub total_shards: u32,
}

/// The shards `start..end` a process of a multi-process layout starts: its
/// first shard and as many more as it counts, the end capped at `u32::MAX`.
pub fn process_shard_range(shard_start: u32, shard_count: u32) -> (r: (u32, u32))
    ensures
        r.0 == shard_start,
        r.1 == if shard_start + shard_count > u32::MAX { u32::MAX as int } else { shard_start + shard_count },
{
    (shard_start, shard_start.saturating_add(shard_count))
}

/// The shard layout: autosharding takes Discord's recommendation; a manual
/// count with a start and a total runs that range of a larger layout; a
/// manual count alone runs every shard here; otherwise a single shard.
pub fn plan_shards(
    use_autosharding: bool,
    manual_count: Option<u32>,
    shard_start: Option<u32>,
    total_shards: Option<u32>,
    recommended: u32,
) -> (p: ShardPlan)
    ensures
        use_autosharding ==> p == (ShardPlan {
            strategy: ShardStrategy::Autoshard,
            shard_count: recommended,
            shard_start: 0,
            total_shards: recommended,
        }),
        !use_autosharding && manual_count is None ==> p == (ShardPlan {
            strategy: ShardStrategy::Single,
            shard_count: 1,
            shard_start: 0,
            total_shards: 1,
        }),
        !use_autosharding ==> match (manual_count, shard_start, total_shards) {
            (Some(n), Some(start), Some(total)) => p == (ShardPlan {
                strategy: ShardStrategy::MultiProcess,
                shard_count: n,
                shard_start: start,
                total_shards: total,
            }),
            (Some(n), _, _) => p == (ShardPlan {
                strategy: ShardStrategy::Manual,
                shard_count: n,
                shard_start: 0,
                total_shards: n,
            }),
            _ => true,
        },
{
    if use_autosharding {
        return ShardPlan {
            strategy: ShardStrategy::Autoshard,
            shard_count: recommended,
            shard_start: 0,
            total_shards: recommended,
        };
    }
    match manual_count {
        Some(n) => match (shard_start, total_shards) {
            (Some(start), Some(total)) => ShardPlan {
                strategy: ShardStrategy::MultiProcess,
                shard_count: n,
                shard_start: start,
                total_shards: total,
            },
            _ => ShardPlan { strategy: ShardStrategy::Manual, shard_count: n, shard_start: 0, total_shards: n },
        },
        None => ShardPlan { strategy: ShardStrategy::Single, shard_count: 1, shard_start: 0, total_shards: 1 },
    }
}

/// The guilds recorded for a shard when the guilds of the process are
/// spread evenly over its shards: each gets the (truncating) quotient,
/// shard 0 the remainder as well.
pub fn shard_guild_count(shard_id: u32, total_guilds: i32, shards: i32) -> (g: i32)
    requires
        shards >= 1,
    ensures
        g == if shard_id == 0 {
            wdiv(total_guilds, shards).wrapping_add(wrem(total_guilds, shards))
        } else {
            wdiv(total_guilds, shards)
        },
{
    let per = crate::dice::arith::div_wrapping(total_guilds, shards);
    if shard_id == 0 {
        let rem = match total_guilds.checked_rem(shards) {
            Some(r) => r,
            None => 0,
        };
        per.wrapping_add(rem)
    } else {
        per
    }
}

/// The name a process records its statistics under: its first shard and
/// process id when several processes share the shards.
pub fn process_name(multi_process: bool, shard_start: &str, pid: u32) -> (s: String)
    ensures
        multi_process ==> s@ == "process_"@ + shard_start@ + "_"@ + nat_str(pid as nat),
        !multi_process ==> s@ == "single_process"@,
{
    if multi_process {
        let mut s = String::from_str("process_");
        s.append(shard_start);
        s.append("_");
        push_nat(&mut s, pid as u64);
        s
    } else {
        String::from_str("single_process")
    }
}

// ---------------------------------------------------------------------------
// Purge
// ---------------------------------------------------------------------------

/// What `/purge` does next: fail, reply without deleting, or fetch that
/// many recent messages to delete.
pub enum PurgeStep {
    Fail(String),
    Reply(String),
    Fetch(u8),
}

/// The requested count as the command reads it: the magnitude of the
/// integer; 10 when none was given.
pub open spec fn purge_count(count: Option<i64>) -> int {
    match count {
        Some(i) => if i < 0 { -(i as int) } else { i as int },
        None => 10,
    }
}

/// `/purge` for a request: only a server member with the permission to
/// manage messages (or an administrator) may purge, and only 2 to 100
/// messages.
pub fn purge_step(is_member: bool, in_guild: bool, permitted: bool, count: Option<i64>) -> (s: PurgeStep)
    ensures
        !is_member ==> (s matches PurgeStep::Fail(m) && m@ == "This command can only be used in servers"@),
        is_member && !in_guild ==> (s matches PurgeStep::Fail(m) && m@
            == "Purge command can only be used in servers"@),
        is_member && in_guild && !permitted ==> (s matches PurgeStep::Reply(m) && m@
            == "❌ You need the 'Manage Messages' or 'Administrator' permission to use this command."@),
        is_member && in_guild && permitted ==> if 2 <= purge_count(count) <= 100 {
            s matches PurgeStep::Fetch(n) && n == purge_count(count)
        } else {
            s matches PurgeStep::Reply(m) && m@ == "❌ Message count must be between 2 and 100."@
        },
{
    if !is_member {
        return PurgeStep::Fail(String::from_str("This command can only be used in servers"));
    }
    if !in_guild {
        return PurgeStep::Fail(String::from_str("Purge command can only be used in servers"));
    }
    if !permitted {
        return PurgeStep::Reply(
            String::from_str("❌ You need the 'Manage Messages' or 'Administrator' permission to use this command."),
        );
    }
    let in_range: bool = match count {
        Some(i) => (2 <= i && i <= 100) || (-100 <= i && i <= -2),
        None => true,
    };
    if !in_range {
        return PurgeStep::Reply(String::from_str("❌ Message count must be between 2 and 100."));
    }
    let c: u8 = match count {
        Some(i) => if i < 0 { (-i) as u8 } else { i as u8 },
        None => 10,
    };
    PurgeStep::Fetch(c)
}

/// The reply when the channel had no message to delete.
pub fn purge_nothing_text() -> (s: String)
    ensures
        s@ == "❌ No messages found to delete."@,
{
    String::from_str("❌ No messages found to delete.")
}

/// The reply after deleting messages.
pub fn purge_done_text(deleted: u64) -> (s: String)
    ensures
        s@ == "🗑️ Successfully deleted "@ + nat_str(deleted as nat) + " message(s)."@,
{
    let mut s = String::from_str("🗑️ Successfully deleted ");
    push_nat(&mut s, deleted);
    s.append(" message(s).");
    s
}

} // verus!
