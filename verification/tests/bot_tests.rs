use dicemaiden_rs::bot::{
    command_error_response, command_kind, plan_shards, process_name, purge_done_text,
    purge_nothing_text, purge_step, shard_guild_count, unknown_command_response, CommandKind,
    PurgeStep, ShardStrategy,
};
use dicemaiden_rs::commands::{
    bot_info_text, display_name, process_stats_section, process_totals_text, shard_totals_text,
    single_stats_section,
};

#[test]
fn command_names() {
    assert!(matches!(command_kind("roll"), CommandKind::Roll));
    assert!(matches!(command_kind("r"), CommandKind::Roll));
    assert!(matches!(command_kind("help"), CommandKind::Help));
    assert!(matches!(command_kind("purge"), CommandKind::Purge));
    assert!(matches!(command_kind("rolls"), CommandKind::Unknown));
    assert_eq!(unknown_command_response().content, "Unknown command");
    assert_eq!(
        command_error_response().content,
        "An error occurred while executing the command."
    );
}

#[test]
fn shard_plans() {
    let p = plan_shards(true, Some(4), Some(0), Some(8), 16);
    assert!(matches!(p.strategy, ShardStrategy::Autoshard));
    assert_eq!((p.shard_count, p.shard_start, p.total_shards), (16, 0, 16));
    let p = plan_shards(false, Some(21), Some(21), Some(64), 16);
    assert!(matches!(p.strategy, ShardStrategy::MultiProcess));
    assert_eq!((p.shard_count, p.shard_start, p.total_shards), (21, 21, 64));
    let p = plan_shards(false, Some(8), None, Some(64), 16);
    assert!(matches!(p.strategy, ShardStrategy::Manual));
    assert_eq!((p.shard_count, p.shard_start, p.total_shards), (8, 0, 8));
    let p = plan_shards(false, None, Some(3), Some(64), 16);
    assert!(matches!(p.strategy, ShardStrategy::Single));
    assert_eq!((p.shard_count, p.shard_start, p.total_shards), (1, 0, 1));
}

#[test]
fn guilds_spread_over_shards() {
    assert_eq!(shard_guild_count(0, 10, 3), 4);
    assert_eq!(shard_guild_count(1, 10, 3), 3);
    assert_eq!(shard_guild_count(2, 10, 3), 3);
    assert_eq!(shard_guild_count(0, 2, 5), 2);
    assert_eq!(shard_guild_count(4, 2, 5), 0);
}

#[test]
fn process_names() {
    assert_eq!(process_name(true, "21", 4242), "process_21_4242");
    assert_eq!(process_name(false, "21", 4242), "single_process");
}

#[test]
fn purge_requests() {
    assert!(matches!(purge_step(false, true, true, Some(5)),
        PurgeStep::Fail(m) if m == "This command can only be used in servers"));
    assert!(matches!(purge_step(true, false, true, Some(5)),
        PurgeStep::Fail(m) if m == "Purge command can only be used in servers"));
    assert!(matches!(purge_step(true, true, false, Some(5)),
        PurgeStep::Reply(m) if m == "❌ You need the 'Manage Messages' or 'Administrator' permission to use this command."));
    assert!(matches!(purge_step(true, true, true, Some(5)), PurgeStep::Fetch(5)));
    assert!(matches!(purge_step(true, true, true, Some(-5)), PurgeStep::Fetch(5)));
    assert!(matches!(purge_step(true, true, true, None), PurgeStep::Fetch(10)));
    assert!(matches!(purge_step(true, true, true, Some(300)),
        PurgeStep::Reply(m) if m == "❌ Message count must be between 2 and 100."));
    assert!(matches!(purge_step(true, true, true, Some(1)),
        PurgeStep::Reply(m) if m == "❌ Message count must be between 2 and 100."));
    assert!(matches!(purge_step(true, true, true, Some(101)), PurgeStep::Reply(_)));
    assert!(matches!(purge_step(true, true, true, Some(i64::MIN)), PurgeStep::Reply(_)));
    assert_eq!(purge_nothing_text(), "❌ No messages found to delete.");
    assert_eq!(purge_done_text(7), "🗑️ Successfully deleted 7 message(s).");
}

#[test]
fn display_names() {
    assert_eq!(display_name(Some("Nick"), Some("Global"), "user"), "Nick");
    assert_eq!(display_name(None, Some("Global"), "user"), "Global");
    assert_eq!(display_name(None, Some(""), "user"), "user");
    assert_eq!(display_name(None, None, "user"), "user");
}

#[test]
fn bot_info_sections() {
    assert_eq!(
        single_stats_section(12, 3400, "52.10 MB"),
        "**Current Stats:**\n• Servers: 12\n• Estimated Users: 3400\n• Memory Usage: 52.10 MB"
    );
    assert_eq!(
        process_stats_section(21, 21, 64, 5, 60, "1.20 GB"),
        "**Current Process Stats:**\n• Process Shards: 21 to 41 (21 shards of 64 total)\n• Process Servers: 5\n• Process Users: ~60\n• Process Memory: 1.20 GB"
    );
    assert_eq!(
        process_stats_section(0, 21, 64, 5, 60, "1.20 GB"),
        "**Current Process Stats:**\n• Process Shards: 0 to 20 (21 shards of 64 total)\n• Process Servers: 5\n• Process Users: ~60\n• Process Memory: 1.20 GB"
    );
    assert_eq!(
        bot_info_text("A", "B"),
        "🤖 **Dice Maiden Bot Info** 🤖\n\nA\n\nB"
    );
}

#[test]
fn database_sections() {
    assert_eq!(
        shard_totals_text("2024-01-01 00:00:00", &vec![], "0.00 MB"),
        "**Database Stats:** No data yet\n"
    );
    assert_eq!(
        shard_totals_text("2024-01-01 00:00:00", &vec![3, 4], "10.00 MB"),
        "**Database Stats:**\n• Last update: 2024-01-01 00:00:00\n• Total recorded servers: 7 (across 2 shards)\n• Recorded memory: 10.00 MB\n"
    );
    assert_eq!(
        process_totals_text("t", &vec![], 64, "0.00 MB"),
        "**Total Stats (All Processes):** No data yet\n"
    );
    assert_eq!(
        process_totals_text("t", &vec![10, 20, 30], 64, "3.00 GB"),
        "**Total Stats (All Processes):**\n• Last update: t\n• Total servers: 60 (across 64 shards)\n• Total memory: 3.00 GB\n• Active processes: 3 (multi-process sharding)\n"
    );
}
