//! What the slash commands answer: the reply to `/roll` for a request and
//! its outcome, and the reply to `/help` for a topic.

use vstd::prelude::*;
use vstd::string::*;
use crate::dice::{DiceError, RollResult};
use crate::dice::format::{
    all_set_labelled, any_original_expression, format_multiple_results_with_limit, is_roll_set,
    is_semicolon_separated, limited_text, results_text, simple_text, simplified_of,
    stripped_expression, strip_comment_from_expression,
};
use crate::dice::systems::{sum_rolls, wsum};
use crate::text::{chars_eq_str, chars_starts_with, int_str, starts_with, nat_str, push_int, push_nat, str_chars, trim_chars, trim_seq, utf8_len};

verus! {

/// A reply, and whether only the user who asked sees it.
pub struct CommandResponse {
    pub content: String,
    pub ephemeral: bool,
}

impl CommandResponse {
    pub fn new(content: String, ephemeral: bool) -> (r: CommandResponse)
        ensures
            r.content@ == content@,
            r.ephemeral == ephemeral,
    {
        CommandResponse { content, ephemeral }
    }

    /// A reply everyone in the channel sees.
    pub fn public(content: String) -> (r: CommandResponse)
        ensures
            r.content@ == content@,
            !r.ephemeral,
    {
        CommandResponse::new(content, false)
    }

    /// A reply only the user who asked sees.
    pub fn private(content: String) -> (r: CommandResponse)
        ensures
            r.content@ == content@,
            r.ephemeral,
    {
        CommandResponse::new(content, true)
    }
}

pub const DONATE_TEXT: &'static str = "Care to support the bot? You can donate via Patreon https://www.patreon.com/dicemaiden \n Another option is join the Dice Maiden Discord server and subscribe! https://discord.gg/4T3R5Cb";

pub fn generate_donate_text() -> (s: String)
    ensures
        s@ == DONATE_TEXT@,
{
    String::from_str(DONATE_TEXT)
}

/// The words `/roll` answers without rolling.
pub enum SpecialRoll {
    Help,
    HelpAlias,
    HelpSystem,
    /// `help <topic>` for any other help topic, holding the topic's name.
    HelpTopic(String),
    Donate,
    BotInfo,
}

/// A special word as the contracts see it.
pub enum SpecialWord {
    Help,
    HelpAlias,
    HelpSystem,
    HelpTopic(Seq<char>),
    Donate,
    BotInfo,
}

pub open spec fn word_of(w: SpecialRoll) -> SpecialWord {
    match w {
        SpecialRoll::Help => SpecialWord::Help,
        SpecialRoll::HelpAlias => SpecialWord::HelpAlias,
        SpecialRoll::HelpSystem => SpecialWord::HelpSystem,
        SpecialRoll::HelpTopic(t) => SpecialWord::HelpTopic(t@),
        SpecialRoll::Donate => SpecialWord::Donate,
        SpecialRoll::BotInfo => SpecialWord::BotInfo,
    }
}

/// The special word of a `/roll` request, compared trimmed and lower-cased:
/// `help`, `help <topic>` for a known help topic, `donate` or `bot-info`.
pub open spec fn special_roll_of(s: Seq<char>) -> Option<SpecialWord> {
    let w = crate::text::unicode_lowercase(trim_seq(s));
    if w == "help"@ {
        Some(SpecialWord::Help)
    } else if w == "help alias"@ {
        Some(SpecialWord::HelpAlias)
    } else if w == "help system"@ {
        Some(SpecialWord::HelpSystem)
    } else if w.len() > 5 && w.take(5) == "help "@ && crate::help_text::topic_help(w.skip(5)) is Some {
        Some(SpecialWord::HelpTopic(w.skip(5)))
    } else if w == "donate"@ {
        Some(SpecialWord::Donate)
    } else if w == "bot-info"@ {
        Some(SpecialWord::BotInfo)
    } else {
        None
    }
}

/// Whether a `/roll` request is one of the words answered without rolling
/// (compared trimmed and lower-cased).
pub fn special_roll(expr: &str) -> (r: Option<SpecialRoll>)
    ensures
        match r {
            Some(x) => special_roll_of(expr@) == Some(word_of(x)),
            None => special_roll_of(expr@) is None,
        },
{
    let cs = str_chars(expr);
    let t = trim_chars(cs.as_slice());
    let w = crate::text::to_lowercase_chars(t.as_slice());
    proof {
        reveal_strlit("help ");
    }
    let topic: Option<String> = if w.len() > 5 && chars_starts_with(w.as_slice(), "help ") {
        let topic_chars = crate::text::sub_chars(w.as_slice(), 5, w.len());
        assert(topic_chars@ =~= w@.skip(5));
        assert(w@.take(5) =~= "help "@);
        let name = crate::text::chars_to_string(topic_chars.as_slice());
        if crate::help_text::generate_topic_help(name.as_str()).is_some() {
            Some(name)
        } else {
            None
        }
    } else {
        proof {
            if w@.len() > 5 && w@.take(5) == "help "@ {
                assert(starts_with(w@, "help "@));
            }
        }
        None
    };
    if chars_eq_str(w.as_slice(), "help") {
        Some(SpecialRoll::Help)
    } else if chars_eq_str(w.as_slice(), "help alias") {
        Some(SpecialRoll::HelpAlias)
    } else if chars_eq_str(w.as_slice(), "help system") {
        Some(SpecialRoll::HelpSystem)
    } else if topic.is_some() {
        Some(SpecialRoll::HelpTopic(topic.unwrap()))
    } else if chars_eq_str(w.as_slice(), "donate") {
        Some(SpecialRoll::Donate)
    } else if chars_eq_str(w.as_slice(), "bot-info") {
        Some(SpecialRoll::BotInfo)
    } else {
        None
    }
}

/// What `/roll` answers a special word with, but for `bot-info`, whose
/// statistics the program gathers itself.
pub open spec fn special_reply(w: SpecialWord) -> Option<Seq<char>> {
    match w {
        SpecialWord::Help => Some(crate::help_text::BASIC_HELP_TEXT@),
        SpecialWord::HelpAlias => Some(crate::help_text::ALIAS_HELP_TEXT@),
        SpecialWord::HelpSystem => Some(crate::help_text::SYSTEM_HELP_TEXT@),
        SpecialWord::HelpTopic(t) => crate::help_text::topic_help(t),
        SpecialWord::Donate => Some(DONATE_TEXT@),
        SpecialWord::BotInfo => None,
    }
}

/// The reply to a special word, but for `bot-info`, whose statistics the
/// program gathers itself.
pub fn special_roll_response(which: &SpecialRoll) -> (r: Option<CommandResponse>)
    requires
        word_of(*which) matches SpecialWord::HelpTopic(t) ==> crate::help_text::topic_help(t) is Some,
    ensures
        match special_reply(word_of(*which)) {
            Some(text) => r matches Some(c) && c.content@ == text && !c.ephemeral,
            None => r is None,
        },
        *which is BotInfo <==> r is None,
{
    match which {
        SpecialRoll::Help => Some(CommandResponse::public(crate::help_text::generate_basic_help())),
        SpecialRoll::HelpAlias => Some(CommandResponse::public(crate::help_text::generate_alias_help())),
        SpecialRoll::HelpSystem => Some(CommandResponse::public(crate::help_text::generate_system_help())),
        SpecialRoll::HelpTopic(t) => match crate::help_text::generate_topic_help(t.as_str()) {
            Some(page) => Some(CommandResponse::public(page)),
            None => Some(CommandResponse::public(crate::help_text::generate_basic_help())),
        },
        SpecialRoll::Donate => Some(CommandResponse::public(generate_donate_text())),
        SpecialRoll::BotInfo => None,
    }
}

pub open spec fn any_private(rs: Seq<RollResult>) -> bool {
    exists|i: int| 0 <= i < rs.len() && (#[trigger] rs[i]).private
}

fn has_private(results: &Vec<RollResult>) -> (b: bool)
    ensures
        b == any_private(results@),
{
    let mut i: usize = 0;
    while i < results.len()
        invariant
            i <= results@.len(),
            forall|k: int| 0 <= k < i ==> !(#[trigger] results@[k]).private,
        decreases results.len() - i,
    {
        if results[i].private {
            return true;
        }
        i = i + 1;
    }
    false
}

/// The reply to a failed request.
pub open spec fn error_reply(name: Seq<char>, expr: Seq<char>, message: Seq<char>) -> Seq<char> {
    "🎲 **"@ + name + "** used `"@ + stripped_expression(expr) + "` - ❌ **Error**: "@ + message
}

/// How a public reply to the results `rs` of the request `expr` from `name`
/// begins: the name, then the request, on a line of its own before several
/// results; a `;` request shows each request with its own result instead.
pub open spec fn reply_header(name: Seq<char>, expr: Seq<char>, rs: Seq<RollResult>) -> Seq<char> {
    "🎲 **"@ + name + if is_semicolon_separated(rs) {
        "** "@
    } else if rs.len() > 1 {
        "** Request: `"@ + stripped_expression(expr) + "`\n"@
    } else {
        "** Request: `"@ + stripped_expression(expr) + "` "@
    }
}

/// The public reply when even the header and the limited text exceed the
/// limit: one result by value alone, or only the number of results.
pub open spec fn over_limit_reply(name: Seq<char>, expr: Seq<char>, rs: Seq<RollResult>, content: Seq<char>) -> bool {
    let prefix = "🎲 **"@ + name + "** Request: `"@ + stripped_expression(expr) + "` "@;
    if rs.len() == 1 {
        exists|s: RollResult| #[trigger] simplified_of(rs[0], s) && content == prefix + simple_text(s)
    } else {
        content == prefix + "**"@ + nat_str(rs.len()) + "** total results Reason: `Simplified roll due to character limit`"@
    }
}

/// The reply `/roll` gives to the request `expr` by `name` with this
/// outcome of parsing and rolling it.
pub open spec fn roll_reply(expr: Seq<char>, name: Seq<char>, outcome: Result<Vec<RollResult>, DiceError>, r: CommandResponse) -> bool {
    match outcome {
        Err(e) => !r.ephemeral && r.content@ == error_reply(name, expr, e.message@),
        Ok(results) => {
            &&& r.ephemeral == any_private(results@)
            &&& exists|t: Seq<char>|
                #![trigger limited_text(results@, t)]
                limited_text(results@, t) && if any_private(results@) {
                    r.content@ == "🎲 **Private Roll** `"@ + stripped_expression(expr) + "` "@ + t
                } else if utf8_len(reply_header(name, expr, results@) + t) <= 2000 {
                    r.content@ == reply_header(name, expr, results@) + t
                } else {
                    over_limit_reply(name, expr, results@, r.content@)
                }
        },
    }
}

/// The reply to `/roll` for the request `expr` from `name`, given how the
/// request came out: private rolls go to the user alone; a reply over
/// Discord's limit falls back to the simplified result.
pub fn roll_response(expr: &str, name: &str, outcome: Result<Vec<RollResult>, DiceError>) -> (r: CommandResponse)
    ensures
        roll_reply(expr@, name@, outcome, r),
{
    match outcome {
        Err(e) => error_response(expr, name, &e),
        Ok(results) => results_response(expr, name, &results),
    }
}

fn error_response(expr: &str, name: &str, e: &DiceError) -> (r: CommandResponse)
    ensures
        !r.ephemeral && r.content@ == error_reply(name@, expr@, e.message@),
{
    let clean = strip_comment_from_expression(expr);
    let mut s = String::from_str("🎲 **");
    s.append(name);
    s.append("** used `");
    s.append(clean.as_str());
    s.append("` - ❌ **Error**: ");
    s.append(e.message.as_str());
    CommandResponse::public(s)
}

fn results_response(expr: &str, name: &str, results: &Vec<RollResult>) -> (r: CommandResponse)
    ensures
        r.ephemeral == any_private(results@),
        exists|t: Seq<char>|
            #![trigger limited_text(results@, t)]
            limited_text(results@, t) && if any_private(results@) {
                r.content@ == "🎲 **Private Roll** `"@ + stripped_expression(expr@) + "` "@ + t
            } else if utf8_len(reply_header(name@, expr@, results@) + t) <= 2000 {
                r.content@ == reply_header(name@, expr@, results@) + t
            } else {
                over_limit_reply(name@, expr@, results@, r.content@)
            },
{
    let clean = strip_comment_from_expression(expr);
    let formatted = format_multiple_results_with_limit(results);
    assert(limited_text(results@, formatted@));
    if has_private(results) {
        let mut s = String::from_str("🎲 **Private Roll** `");
        s.append(clean.as_str());
        s.append("` ");
        s.append(formatted.as_str());
        return CommandResponse::private(s);
    }
    let semicolon_separated = results.len() > 1 && any_original_expression(results)
        && !all_set_labelled(results);
    assert(semicolon_separated == is_semicolon_separated(results@));
    let mut content = String::from_str("🎲 **");
    content.append(name);
    if semicolon_separated {
        content.append("** ");
    } else if results.len() > 1 {
        content.append("** Request: `");
        content.append(clean.as_str());
        content.append("`\n");
    } else {
        content.append("** Request: `");
        content.append(clean.as_str());
        content.append("` ");
    }
    assert(content@ == reply_header(name@, expr@, results@));
    content.append(formatted.as_str());
    let content_chars = str_chars(content.as_str());
    let too_long = content_chars.len() >= 0x1000_0000 || crate::text::byte_len(content_chars.as_slice()) > 2000;
    proof {
        if content_chars@.len() >= 0x1000_0000 {
            crate::text::lemma_utf8_len_ge(content_chars@);
        }
    }
    if !too_long {
        return CommandResponse::public(content);
    }
    let mut out = String::from_str("🎲 **");
    out.append(name);
    out.append("** Request: `");
    out.append(clean.as_str());
    out.append("` ");
    if results.len() == 1 {
        let mut simplified = results[0].create_simplified();
        assert(simplified_of(results@[0], simplified));
        simplified.simple = true;
        let text = simplified.to_string();
        out.append(text.as_str());
    } else {
        out.append("**");
        crate::text::push_nat(&mut out, results.len() as u64);
        out.append("** total results Reason: `Simplified roll due to character limit`");
    }
    CommandResponse::public(out)
}

/// The reply to `/roll`: a special word's reply, or the request parsed,
/// rolled and rendered; `None` for `bot-info`.
pub fn roll_command(expr: &str, name: &str) -> (r: Option<CommandResponse>)
    ensures
        match special_roll_of(expr@) {
            Some(w) => match special_reply(w) {
                Some(text) => r matches Some(c) && c.content@ == text && !c.ephemeral,
                None => r is None,
            },
            None => r matches Some(c) && exists|o: Result<Vec<RollResult>, DiceError>|
                #[trigger] crate::dice::format::rolled_request(expr@, o) && roll_reply(expr@, name@, o, c),
        },
{
    if let Some(which) = special_roll(expr) {
        return special_roll_response(&which);
    }
    let outcome = crate::dice::format::parse_and_roll(expr);
    Some(roll_response(expr, name, outcome))
}

/// The reply to `/help`: the page of the topic (the basic page when the
/// topic is missing or unknown), shown to the user alone.
pub fn help_response(topic: Option<&str>) -> (r: CommandResponse)
    ensures
        r.ephemeral,
        topic is None ==> r.content@ == crate::help_text::BASIC_HELP_TEXT@,
        topic matches Some(t) ==> r.content@ == match crate::help_text::topic_help(t@) {
            Some(page) => page,
            None => crate::help_text::BASIC_HELP_TEXT@,
        },
{
    let page = match topic {
        Some(t) => match crate::help_text::generate_topic_help(t) {
            Some(p) => p,
            None => crate::help_text::generate_basic_help(),
        },
        None => crate::help_text::generate_basic_help(),
    };
    CommandResponse::private(page)
}

/// The name a reply calls the user by: the server nickname, else the
/// global display name when it is set and not empty, else the user name.
pub fn display_name(nick: Option<&str>, global_name: Option<&str>, username: &str) -> (s: String)
    ensures
        s@ == match nick {
            Some(n) => n@,
            None => match global_name {
                Some(g) => if g@.len() > 0 { g@ } else { username@ },
                None => username@,
            },
        },
{
    if let Some(n) = nick {
        return String::from_str(n);
    }
    if let Some(g) = global_name {
        if g.unicode_len() > 0 {
            return String::from_str(g);
        }
    }
    String::from_str(username)
}

/// The statistics of this process when the bot runs as one of several
/// processes: its shards run from `shard_start` to the last of its
/// `shard_count` shards.
pub fn process_stats_section(
    shard_start: u32,
    shard_count: u32,
    total_shards: u32,
    servers: u64,
    users: u64,
    memory: &str,
) -> (s: String)
    requires
        shard_count >= 1,
    ensures
        s@ == "**Current Process Stats:**\n• Process Shards: "@ + nat_str(shard_start as nat) + " to "@ + nat_str(
            (shard_start + shard_count - 1) as nat,
        ) + " ("@ + nat_str(shard_count as nat) + " shards of "@ + nat_str(total_shards as nat)
            + " total)\n• Process Servers: "@ + nat_str(servers as nat) + "\n• Process Users: ~"@ + nat_str(users as nat)
            + "\n• Process Memory: "@ + memory@,
{
    let mut s = String::from_str("**Current Process Stats:**\n• Process Shards: ");
    push_nat(&mut s, shard_start as u64);
    s.append(" to ");
    push_nat(&mut s, shard_start as u64 + shard_count as u64 - 1);
    s.append(" (");
    push_nat(&mut s, shard_count as u64);
    s.append(" shards of ");
    push_nat(&mut s, total_shards as u64);
    s.append(" total)\n• Process Servers: ");
    push_nat(&mut s, servers);
    s.append("\n• Process Users: ~");
    push_nat(&mut s, users);
    s.append("\n• Process Memory: ");
    s.append(memory);
    s
}

/// The statistics of the bot when it runs as a single process.
pub fn single_stats_section(servers: u64, users: u64, memory: &str) -> (s: String)
    ensures
        s@ == "**Current Stats:**\n• Servers: "@ + nat_str(servers as nat) + "\n• Estimated Users: "@ + nat_str(
            users as nat,
        ) + "\n• Memory Usage: "@ + memory@,
{
    let mut s = String::from_str("**Current Stats:**\n• Servers: ");
    push_nat(&mut s, servers);
    s.append("\n• Estimated Users: ");
    push_nat(&mut s, users);
    s.append("\n• Memory Usage: ");
    s.append(memory);
    s
}

/// The reply to `bot-info`: the statistics of this process, then those
/// recorded in the database.
pub fn bot_info_text(stats_section: &str, db_stats: &str) -> (s: String)
    ensures
        s@ == "🤖 **Dice Maiden Bot Info** 🤖\n\n"@ + stats_section@ + "\n\n"@ + db_stats@,
{
    let mut s = String::from_str("🤖 **Dice Maiden Bot Info** 🤖\n\n");
    s.append(stats_section);
    s.append("\n\n");
    s.append(db_stats);
    s
}

/// The totals recorded by every process: the newest update, the servers
/// summed over the processes, the shards, the memory, and how many
/// processes report; "no data" when none does.
pub fn process_totals_text(last_update: &str, server_counts: &Vec<i32>, total_shards: i32, memory: &str) -> (s: String)
    ensures
        server_counts@.len() == 0 ==> s@ == "**Total Stats (All Processes):** No data yet\n"@,
        server_counts@.len() > 0 ==> s@ == "**Total Stats (All Processes):**\n• Last update: "@ + last_update@
            + "\n• Total servers: "@ + int_str(wsum(server_counts@) as int) + " (across "@ + int_str(
            total_shards as int,
        ) + " shards)\n• Total memory: "@ + memory@ + "\n• Active processes: "@ + nat_str(server_counts@.len())
            + " (multi-process sharding)\n"@,
{
    if server_counts.len() == 0 {
        return String::from_str("**Total Stats (All Processes):** No data yet\n");
    }
    let mut s = String::from_str("**Total Stats (All Processes):**\n• Last update: ");
    s.append(last_update);
    s.append("\n• Total servers: ");
    push_int(&mut s, sum_rolls(server_counts) as i64);
    s.append(" (across ");
    push_int(&mut s, total_shards as i64);
    s.append(" shards)\n• Total memory: ");
    s.append(memory);
    s.append("\n• Active processes: ");
    push_nat(&mut s, server_counts.len() as u64);
    s.append(" (multi-process sharding)\n");
    s
}

/// The statistics recorded by the shards of a single process: the newest
/// update, the servers summed over the shards, how many shards report, and
/// the memory recorded by shard 0; "no data" when no shard reports.
pub fn shard_totals_text(last_update: &str, server_counts: &Vec<i32>, memory: &str) -> (s: String)
    ensures
        server_counts@.len() == 0 ==> s@ == "**Database Stats:** No data yet\n"@,
        server_counts@.len() > 0 ==> s@ == "**Database Stats:**\n• Last update: "@ + last_update@
            + "\n• Total recorded servers: "@ + int_str(wsum(server_counts@) as int) + " (across "@ + nat_str(
            server_counts@.len(),
        ) + " shards)\n• Recorded memory: "@ + memory@ + "\n"@,
{
    if server_counts.len() == 0 {
        return String::from_str("**Database Stats:** No data yet\n");
    }
    let mut s = String::from_str("**Database Stats:**\n• Last update: ");
    s.append(last_update);
    s.append("\n• Total recorded servers: ");
    push_int(&mut s, sum_rolls(server_counts) as i64);
    s.append(" (across ");
    push_nat(&mut s, server_counts.len() as u64);
    s.append(" shards)\n• Recorded memory: ");
    s.append(memory);
    s.append("\n");
    s
}

} // verus!
