use inactivity_bot::activity::{merge_user_activity, sort_by_last_activity, ActivityRow, LastUserActivity};
use inactivity_bot::config::apply_config;
use inactivity_bot::events::{
    channel_write, member_writes, message_writes, plan_event, plan_event_at, reaction_writes, ChannelInfo,
    EventPlan, GatewayEvent, MemberProfile, MessageRecord, SkipReason,
};
use inactivity_bot::report::{timeout_report, timeout_report_at, Member, REPORT_LIMIT};
use inactivity_bot::scan::{lookback, lookback_now, ChannelScan, ScanAction, ScanEvent, Stamp, StoredMessage};
use inactivity_bot::store::{add_guild, to_db_id, update_guild, DbWrite, GuildData, DEFAULT_INACTIVITY_DAYS};
use inactivity_bot::text::{push_decimal, push_signed_decimal};
use inactivity_bot::time::{days_before, Moment, MAX_SPAN_DAYS_FROM_EPOCH, MAX_UNIX_SECS, MIN_UNIX_SECS};

fn moment(secs: i64, nanos: u32) -> Moment {
    Moment { secs, nanos }
}

fn activity(id: u64, is_bot: bool, msg: Option<i64>, react: Option<i64>) -> LastUserActivity {
    LastUserActivity { user_id: id, is_bot, last_message_timestamp: msg, last_reaction_timestamp: react }
}

// ---- time ----

#[test]
fn moment_from_parts_checks_range() {
    assert_eq!(Moment::from_parts(5, 7), Some(moment(5, 7)));
    assert_eq!(Moment::from_parts(5, 1_000_000_000), None);
    assert_eq!(Moment::from_parts(MAX_UNIX_SECS, 0), Some(moment(MAX_UNIX_SECS, 0)));
    assert_eq!(Moment::from_parts(MAX_UNIX_SECS + 1, 0), None);
    assert_eq!(Moment::from_parts(MIN_UNIX_SECS - 1, 0), None);
}

#[test]
fn moment_order() {
    assert!(moment(10, 1).after(&moment(10, 0)));
    assert!(moment(11, 0).after(&moment(10, 999)));
    assert!(!moment(10, 0).after(&moment(10, 0)));
    assert!(!moment(9, 999).after(&moment(10, 0)));
}

#[test]
fn days_before_subtracts_whole_days() {
    assert_eq!(days_before(moment(1_700_000_000, 5), 30), Some(moment(1_700_000_000 - 2_592_000, 5)));
    assert_eq!(days_before(moment(100, 0), -2), Some(moment(100 + 172_800, 0)));
    assert_eq!(days_before(moment(100, 0), 0), Some(moment(100, 0)));
}

#[test]
fn days_before_fails_where_chrono_panics() {
    assert_eq!(days_before(moment(0, 0), i64::MAX), None);
    assert_eq!(days_before(moment(0, 0), 106_751_991_167), None);
    assert_eq!(days_before(moment(MIN_UNIX_SECS + 86_400, 3), 1), Some(moment(MIN_UNIX_SECS, 3)));
    assert_eq!(days_before(moment(MIN_UNIX_SECS + 86_400, 3), 2), None);
    assert_eq!(days_before(moment(MAX_UNIX_SECS - 86_400, 0), -1), Some(moment(MAX_UNIX_SECS, 0)));
    assert_eq!(days_before(moment(MAX_UNIX_SECS - 86_399, 0), -1), None);
}

#[test]
fn report_prints_timestamps_as_serenity_debugs_them() {
    let acts = vec![activity(1, false, Some(1_462_015_105), None)];
    let r = timeout_report_at(&vec![], &acts, 0, moment(2_000_000_000, 0));
    assert_eq!(r.as_deref(), Some("<@1> - Some(Timestamp(2016-04-30T11:18:25Z))\n"));
}

#[test]
fn merge_keeps_timestamps_at_range_edges() {
    let messages = vec![
        ActivityRow { user_id: Some(1), last_timestamp: Some(MAX_UNIX_SECS), is_bot: Some(false) },
        ActivityRow { user_id: Some(2), last_timestamp: Some(MIN_UNIX_SECS), is_bot: Some(false) },
    ];
    let merged = merge_user_activity(&messages, &vec![]);
    assert_eq!(
        merged,
        vec![activity(1, false, Some(MAX_UNIX_SECS), None), activity(2, false, Some(MIN_UNIX_SECS), None)]
    );
}

// ---- text ----

#[test]
fn decimal_numerals() {
    let mut s = String::from("x");
    push_decimal(&mut s, 0);
    push_decimal(&mut s, 1_234_567_890);
    push_decimal(&mut s, u64::MAX);
    assert_eq!(s, "x012345678901844674407370955161 5".replace(' ', ""));
    let mut t = String::new();
    push_signed_decimal(&mut t, -42);
    push_signed_decimal(&mut t, 7);
    push_signed_decimal(&mut t, i64::MIN);
    assert_eq!(t, format!("-427{}", i64::MIN));
}

// ---- activity ----

#[test]
fn merge_sets_each_users_entry() {
    let messages = vec![
        ActivityRow { user_id: Some(1), last_timestamp: Some(100), is_bot: Some(false) },
        ActivityRow { user_id: None, last_timestamp: Some(5), is_bot: Some(true) },
        ActivityRow { user_id: Some(2), last_timestamp: None, is_bot: Some(true) },
    ];
    let reactions = vec![
        ActivityRow { user_id: Some(1), last_timestamp: Some(200), is_bot: Some(true) },
        ActivityRow { user_id: Some(3), last_timestamp: Some(50), is_bot: None },
        ActivityRow { user_id: Some(4), last_timestamp: Some(70), is_bot: Some(false) },
    ];
    let merged = merge_user_activity(&messages, &reactions);
    assert_eq!(
        merged,
        vec![
            activity(1, true, Some(100), Some(200)),
            activity(2, true, None, None),
            activity(4, false, None, Some(70)),
        ]
    );
}

#[test]
fn merge_later_row_overrides() {
    let messages = vec![
        ActivityRow { user_id: Some(9), last_timestamp: Some(1), is_bot: Some(true) },
        ActivityRow { user_id: Some(9), last_timestamp: Some(2), is_bot: Some(false) },
    ];
    let merged = merge_user_activity(&messages, &vec![]);
    assert_eq!(merged, vec![activity(9, false, Some(2), None)]);
}

#[test]
fn merge_of_nothing_is_empty() {
    assert!(merge_user_activity(&vec![], &vec![]).is_empty());
}

#[test]
fn last_activity_is_later_of_both() {
    assert_eq!(activity(1, false, Some(5), Some(3)).last_activity(), Some(5));
    assert_eq!(activity(1, false, Some(5), Some(8)).last_activity(), Some(8));
    assert_eq!(activity(1, false, None, Some(8)).last_activity(), Some(8));
    assert_eq!(activity(1, false, Some(-4), None).last_activity(), Some(-4));
    assert_eq!(activity(1, false, None, None).last_activity(), None);
}

#[test]
fn sort_orders_by_latest_stably() {
    let mut v = vec![
        activity(1, false, Some(30), None),
        activity(2, false, None, None),
        activity(3, false, Some(10), Some(20)),
        activity(4, false, Some(20), None),
        activity(5, true, None, None),
        activity(6, false, None, Some(5)),
    ];
    sort_by_last_activity(&mut v);
    let ids: Vec<u64> = v.iter().map(|a| a.user_id).collect();
    assert_eq!(ids, vec![2, 5, 6, 3, 4, 1]);
}

#[test]
fn sorting_twice_changes_nothing() {
    let mut v = vec![
        activity(1, false, Some(30), None),
        activity(2, false, Some(30), None),
        activity(3, false, None, None),
        activity(4, false, Some(10), None),
    ];
    sort_by_last_activity(&mut v);
    let once = v.clone();
    sort_by_last_activity(&mut v);
    assert_eq!(v, once);
    let ids: Vec<u64> = v.iter().map(|a| a.user_id).collect();
    assert_eq!(ids, vec![3, 4, 1, 2]);
}

// ---- report ----

fn sample_members() -> Vec<Member> {
    vec![
        Member { user_id: 10, is_bot: false },
        Member { user_id: 14, is_bot: false },
        Member { user_id: 15, is_bot: true },
        Member { user_id: 16, is_bot: false },
        Member { user_id: 16, is_bot: false },
        Member { user_id: 17, is_bot: true },
        Member { user_id: 17, is_bot: false },
    ]
}

fn sample_activity() -> Vec<LastUserActivity> {
    vec![
        activity(10, false, Some(950_000), None),
        activity(11, false, Some(900_000), Some(800_000)),
        activity(12, true, None, None),
        activity(13, false, None, None),
    ]
}

#[test]
fn report_lists_inactive_users() {
    let r = timeout_report_at(&sample_members(), &sample_activity(), 1, moment(1_000_000, 0));
    assert_eq!(
        r.as_deref(),
        Some(
            "<@13> - None\n<@11> - Some(Timestamp(1970-01-11T10:00:00Z))\n<@14> - before 1 days\n<@16> - before 1 days\n<@17> - before 1 days\n"
        )
    );
}

#[test]
fn report_cutoff_is_strict() {
    // Activity exactly at the start of the window is not "after" it.
    let acts = vec![activity(20, false, Some(913_600), None), activity(21, false, Some(913_601), None)];
    let r = timeout_report_at(&vec![], &acts, 1, moment(1_000_000, 0));
    assert_eq!(r.as_deref(), Some("<@20> - Some(Timestamp(1970-01-11T13:46:40Z))\n"));
    // A second earlier, with a sub-second part, the window starts inside
    // second 913_599: both users were active after it.
    let r2 = timeout_report_at(&vec![], &acts, 1, moment(999_999, 1));
    assert_eq!(r2.as_deref(), Some(""));
    // Without the sub-second part, activity at 913_599 is not after it.
    let acts3 = vec![activity(22, false, Some(913_599), None)];
    let r3 = timeout_report_at(&vec![], &acts3, 1, moment(999_999, 0));
    assert_eq!(r3.as_deref(), Some("<@22> - Some(Timestamp(1970-01-11T13:46:39Z))\n"));
    let r4 = timeout_report_at(&vec![], &acts3, 1, moment(999_998, 999_999_999));
    assert_eq!(r4.as_deref(), Some(""));
}

#[test]
fn report_negative_window_prints_sign() {
    let members = vec![Member { user_id: 3, is_bot: false }];
    let r = timeout_report_at(&members, &vec![], -3, moment(0, 0));
    assert_eq!(r.as_deref(), Some("<@3> - before -3 days\n"));
}

#[test]
fn report_is_cut_after_limit() {
    let members: Vec<Member> = (0..100u64).map(|i| Member { user_id: 100_000_000 + i, is_bot: false }).collect();
    let r = timeout_report_at(&members, &vec![], 30, moment(1_000_000, 0)).unwrap();
    let mut full = String::new();
    for i in 0..100u64 {
        full.push_str(&format!("<@{}> - before 30 days\n", 100_000_000 + i));
    }
    assert_eq!(r.len(), REPORT_LIMIT + "\n...and more".len());
    assert_eq!(&r[..REPORT_LIMIT], &full[..REPORT_LIMIT]);
    assert!(r.ends_with("\n...and more"));
}

#[test]
fn report_fails_where_window_overflows() {
    let acts = vec![activity(1, false, Some(5), None)];
    assert_eq!(timeout_report_at(&vec![], &acts, i64::MAX, moment(1_000_000, 0)), None);
    let bots_only = vec![activity(1, true, Some(5), None), activity(2, false, None, None)];
    assert_eq!(
        timeout_report_at(&vec![], &bots_only, i64::MAX, moment(1_000_000, 0)).as_deref(),
        Some("<@2> - None\n")
    );
}

#[test]
fn report_of_nothing_is_empty() {
    assert_eq!(timeout_report_at(&vec![], &vec![], 30, moment(1_000_000, 0)).as_deref(), Some(""));
    assert_eq!(timeout_report(&vec![], &vec![], 30).as_deref(), Some(""));
}

#[test]
fn report_now_reads_clock() {
    let acts = vec![activity(1, false, Some(1_000), None)];
    assert_eq!(
        timeout_report(&vec![], &acts, 30).as_deref(),
        Some("<@1> - Some(Timestamp(1970-01-01T00:16:40Z))\n")
    );
}

// ---- config ----

fn guild() -> GuildData {
    GuildData {
        id: 7,
        inactivity_threshold_days: 30,
        search_window_buffer_days: 2,
        report_channel: None,
        generate_report_at_hour: 12,
        warning_threshold_days: 7,
    }
}

#[test]
fn config_without_options_changes_nothing() {
    assert_eq!(apply_config(guild(), None, None, None, None), (guild(), false));
}

#[test]
fn config_sets_given_options() {
    let (g, reindex) = apply_config(guild(), Some(45), Some(u64::MAX), Some(3), Some(9));
    assert!(reindex);
    assert_eq!(
        g,
        GuildData {
            id: 7,
            inactivity_threshold_days: 45,
            search_window_buffer_days: 2,
            report_channel: Some(-1),
            generate_report_at_hour: 3,
            warning_threshold_days: 9,
        }
    );
    let (g2, reindex2) = apply_config(guild(), None, Some(555), None, None);
    assert!(!reindex2);
    assert_eq!(g2.report_channel, Some(555));
    assert_eq!(g2.inactivity_threshold_days, 30);
}

#[test]
fn config_saves_hour_and_warning() {
    let (g, _) = apply_config(guild(), None, None, Some(5), Some(3));
    assert_eq!(
        update_guild(&g),
        DbWrite::UpdateGuild {
            guild_id: 7,
            inactivity_threshold_days: 30,
            search_window_buffer_days: 2,
            report_channel: None,
            generate_report_at_hour: 5,
            warning_threshold_days: 3,
        }
    );
}

#[test]
fn config_twice_is_config_once() {
    let once = apply_config(guild(), Some(10), Some(3), None, Some(1));
    let twice = apply_config(once.0, Some(10), Some(3), None, Some(1));
    assert_eq!(once, twice);
}

// ---- store ----

#[test]
fn store_writes_bind_ids_as_i64() {
    assert_eq!(to_db_id(5), 5);
    assert_eq!(to_db_id(u64::MAX), -1);
    assert_eq!(add_guild(42), DbWrite::AddGuild { guild_id: 42, inactivity_threshold_days: DEFAULT_INACTIVITY_DAYS });
    assert_eq!(DEFAULT_INACTIVITY_DAYS, 30);
    let mut g = guild();
    g.report_channel = Some(99);
    assert_eq!(
        update_guild(&g),
        DbWrite::UpdateGuild {
            guild_id: 7,
            inactivity_threshold_days: 30,
            search_window_buffer_days: 2,
            report_channel: Some(99),
            generate_report_at_hour: 12,
            warning_threshold_days: 7,
        }
    );
}

// ---- scan ----

#[test]
fn lookback_subtracts_both_windows() {
    assert_eq!(lookback(moment(1_000_000, 7), 1, 2), Some(moment(1_000_000 - 259_200, 7)));
    assert_eq!(lookback(moment(1_000_000, 7), 1, i64::MIN), None);
}

#[test]
fn lookback_now_reads_clock() {
    let m = lookback_now(30, 2).unwrap();
    assert!(m.secs > 1_600_000_000 - 32 * 86_400);
    assert!(m.nanos < 1_000_000_000);
    assert_eq!(lookback_now(i64::MAX, 0), None);
}

#[test]
fn scan_walks_back_then_forward() {
    let lb = moment(1_000, 0);
    let (mut scan, action) = ChannelScan::start(lb, Some(StoredMessage { id: 50, created: moment(2_000, 0) }));
    assert_eq!(action, ScanAction::FetchOlder { before: 50 });
    let batch = vec![Stamp { id: 49, created: moment(1_500, 0) }, Stamp { id: 48, created: moment(999, 999) }];
    assert_eq!(scan.advance(ScanEvent::Batch(batch)), ScanAction::CheckSeen { message_id: 49 });
    assert_eq!(scan.before, 48);
    assert_eq!(scan.advance(ScanEvent::Seen(false)), ScanAction::Store { message_id: 49 });
    // Message 48 was sent before the look-back instant: the walk back ends.
    assert_eq!(scan.advance(ScanEvent::Stored), ScanAction::FetchNewer);
    assert_eq!(scan.advance(ScanEvent::Next(Some(Stamp { id: 60, created: moment(3_000, 0) }))), ScanAction::CheckSeen { message_id: 60 });
    assert_eq!(scan.advance(ScanEvent::Seen(false)), ScanAction::Store { message_id: 60 });
    assert_eq!(scan.advance(ScanEvent::Stored), ScanAction::FetchNewer);
    assert_eq!(scan.advance(ScanEvent::Next(Some(Stamp { id: 59, created: moment(2_500, 0) }))), ScanAction::CheckSeen { message_id: 59 });
    // Message 59 is stored already: the channel is done.
    assert_eq!(scan.advance(ScanEvent::Seen(true)), ScanAction::Finish);
    assert_eq!(scan.advance(ScanEvent::Stored), ScanAction::Finish);
    assert_eq!(scan.advance(ScanEvent::Next(None)), ScanAction::Finish);
}

#[test]
fn scan_batches_continue_until_empty() {
    let lb = moment(1_000, 0);
    let (mut scan, _) = ChannelScan::start(lb, Some(StoredMessage { id: 50, created: moment(2_000, 0) }));
    let batch = vec![Stamp { id: 49, created: moment(1_500, 0) }];
    assert_eq!(scan.advance(ScanEvent::Batch(batch)), ScanAction::CheckSeen { message_id: 49 });
    assert_eq!(scan.advance(ScanEvent::Seen(false)), ScanAction::Store { message_id: 49 });
    assert_eq!(scan.advance(ScanEvent::Stored), ScanAction::FetchOlder { before: 49 });
    assert_eq!(scan.advance(ScanEvent::Batch(vec![])), ScanAction::FetchNewer);
    assert_eq!(scan.advance(ScanEvent::Next(None)), ScanAction::Finish);
}

#[test]
fn scan_seen_in_walk_back_switches_walk() {
    let (mut scan, _) = ChannelScan::start(moment(0, 0), Some(StoredMessage { id: 50, created: moment(2_000, 0) }));
    let batch = vec![Stamp { id: 49, created: moment(1_500, 0) }, Stamp { id: 40, created: moment(1_400, 0) }];
    assert_eq!(scan.advance(ScanEvent::Batch(batch)), ScanAction::CheckSeen { message_id: 49 });
    assert_eq!(scan.advance(ScanEvent::Seen(true)), ScanAction::FetchNewer);
}

#[test]
fn scan_start_cases() {
    let lb = moment(1_000, 0);
    let (_, a) = ChannelScan::start(lb, None);
    assert_eq!(a, ScanAction::FetchNewer);
    let (_, b) = ChannelScan::start(lb, Some(StoredMessage { id: 5, created: moment(999, 0) }));
    assert_eq!(b, ScanAction::Finish);
    let (_, c) = ChannelScan::start(lb, Some(StoredMessage { id: 5, created: moment(1_000, 0) }));
    assert_eq!(c, ScanAction::FetchOlder { before: 5 });
}

#[test]
fn scan_old_newest_message_finishes() {
    let (mut scan, _) = ChannelScan::start(moment(1_000, 0), None);
    assert_eq!(scan.advance(ScanEvent::Next(Some(Stamp { id: 3, created: moment(10, 0) }))), ScanAction::Finish);
}

#[test]
fn scan_unexpected_answer_finishes() {
    let (mut scan, _) = ChannelScan::start(moment(1_000, 0), None);
    assert_eq!(scan.advance(ScanEvent::Seen(false)), ScanAction::Finish);
    assert_eq!(scan.advance(ScanEvent::Next(Some(Stamp { id: 3, created: moment(2_000, 0) }))), ScanAction::Finish);
}

// ---- events ----

fn record() -> MessageRecord {
    MessageRecord {
        message_id: 100,
        channel_id: 200,
        author_id: 300,
        author_is_bot: false,
        author_name: "alice".to_string(),
        timestamp: 1_700_000_000,
        edited_timestamp: Some(1_700_000_100),
    }
}

#[test]
fn message_and_reaction_writes() {
    assert_eq!(
        message_writes(record()),
        vec![
            DbWrite::AddUser { user_id: 300, is_bot: false, username: Some("alice".to_string()) },
            DbWrite::AddMessage {
                message_id: 100,
                channel_id: 200,
                user_id: Some(300),
                created_at: 1_700_000_000,
                edited_at: Some(1_700_000_100),
            },
        ]
    );
    assert_eq!(
        reaction_writes(100, &vec![1, 2], 55),
        vec![
            DbWrite::AddReaction { message_id: 100, user_id: 1, created_at: 55 },
            DbWrite::AddReaction { message_id: 100, user_id: 2, created_at: 55 },
        ]
    );
}

#[test]
fn event_plans() {
    assert_eq!(plan_event_at(GatewayEvent::Other, 0, 0), EventPlan::Ignore);
    assert_eq!(
        plan_event_at(GatewayEvent::Ready { guild_ids: vec![1, 2] }, 0, 0),
        EventPlan::SetUpGuilds(vec![1, 2])
    );
    assert_eq!(
        plan_event_at(GatewayEvent::Message { guild_id: None, message: record() }, 0, 0),
        EventPlan::Skip(SkipReason::NotInGuild)
    );
    assert_eq!(
        plan_event_at(GatewayEvent::Message { guild_id: Some(9), message: record() }, 0, 0),
        EventPlan::Record(vec![
            DbWrite::AddChannel { channel_id: 200, name: None, guild_id: 9 },
            DbWrite::AddUser { user_id: 300, is_bot: false, username: Some("alice".to_string()) },
            DbWrite::AddMessage {
                message_id: 100,
                channel_id: 200,
                user_id: Some(300),
                created_at: 1_700_000_000,
                edited_at: Some(1_700_000_100),
            },
        ])
    );
    let reaction = |guild_id, user_id| GatewayEvent::ReactionAdd {
        guild_id,
        user_id,
        channel_id: 200,
        message_id: 100,
        message_author_id: None,
    };
    assert_eq!(plan_event_at(reaction(None, Some(4)), 0, 0), EventPlan::Skip(SkipReason::NotInGuild));
    assert_eq!(plan_event_at(reaction(Some(9), None), 0, 0), EventPlan::Skip(SkipReason::NoUser));
    assert_eq!(
        plan_event_at(reaction(Some(9), Some(4)), 11, 12),
        EventPlan::Record(vec![
            DbWrite::AddChannel { channel_id: 200, name: None, guild_id: 9 },
            DbWrite::AddUser { user_id: 4, is_bot: false, username: None },
            DbWrite::AddMessage { message_id: 100, channel_id: 200, user_id: None, created_at: 11, edited_at: None },
            DbWrite::AddReaction { message_id: 100, user_id: 4, created_at: 12 },
        ])
    );
}

#[test]
fn reaction_event_reads_clock() {
    let plan = plan_event(GatewayEvent::ReactionAdd {
        guild_id: Some(1),
        user_id: Some(2),
        channel_id: 3,
        message_id: 4,
        message_author_id: Some(5),
    });
    match plan {
        EventPlan::Record(w) => {
            assert_eq!(w.len(), 4);
            match (&w[2], &w[3]) {
                (
                    DbWrite::AddMessage { created_at: m, user_id: Some(5), .. },
                    DbWrite::AddReaction { created_at: r, .. },
                ) => {
                    assert!(*m > 1_600_000_000);
                    assert!(*r >= *m);
                }
                _ => panic!("unexpected writes"),
            }
        }
        _ => panic!("unexpected plan"),
    }
}

#[test]
fn span_bound_from_epoch_is_exact() {
    assert!(days_before(moment(0, 0), MAX_SPAN_DAYS_FROM_EPOCH).is_some());
    assert_eq!(days_before(moment(0, 0), MAX_SPAN_DAYS_FROM_EPOCH + 1), None);
}

#[test]
fn long_windows_still_give_lookback_and_report() {
    assert!(lookback_now(MAX_SPAN_DAYS_FROM_EPOCH - 10, 10).is_some());
    assert!(lookback_now(1_000_000, 1_000_000).is_some());
    let acts = vec![activity(1, false, Some(5), None)];
    // The window reaches back before the epoch: the user counts as active.
    assert_eq!(timeout_report(&vec![], &acts, MAX_SPAN_DAYS_FROM_EPOCH).as_deref(), Some(""));
}

#[test]
fn longer_window_lists_fewer_users() {
    let acts = vec![
        activity(1, false, Some(1_000_000 - 2 * 86_400), None),
        activity(2, false, Some(1_000_000 - 10 * 86_400), None),
        activity(3, false, None, None),
    ];
    let members = vec![Member { user_id: 9, is_bot: false }];
    let short = timeout_report_at(&members, &acts, 1, moment(1_000_000, 0)).unwrap();
    let long = timeout_report_at(&members, &acts, 5, moment(1_000_000, 0)).unwrap();
    assert_eq!(
        short,
        "<@3> - None\n<@2> - Some(Timestamp(1970-01-02T13:46:40Z))\n<@1> - Some(Timestamp(1970-01-10T13:46:40Z))\n<@9> - before 1 days\n"
    );
    assert_eq!(long, "<@3> - None\n<@2> - Some(Timestamp(1970-01-02T13:46:40Z))\n<@9> - before 5 days\n");
}

#[test]
fn member_and_channel_writes() {
    let members = vec![
        MemberProfile { user_id: 1, is_bot: false, name: "a".to_string() },
        MemberProfile { user_id: 2, is_bot: true, name: "b".to_string() },
    ];
    assert_eq!(
        member_writes(&members),
        vec![
            DbWrite::AddUser { user_id: 1, is_bot: false, username: Some("a".to_string()) },
            DbWrite::AddUser { user_id: 2, is_bot: true, username: Some("b".to_string()) },
        ]
    );
    let text = ChannelInfo { channel_id: 5, name: "general".to_string(), guild_id: 6, text_based: true };
    assert_eq!(
        channel_write(text),
        Some(DbWrite::AddChannel { channel_id: 5, name: Some("general".to_string()), guild_id: 6 })
    );
    let voice = ChannelInfo { channel_id: 7, name: "voice".to_string(), guild_id: 6, text_based: false };
    assert_eq!(channel_write(voice), None);
}

#[test]
fn fresh_batch_is_stored_whole() {
    let (mut scan, action) = ChannelScan::start(moment(0, 0), Some(StoredMessage { id: 100, created: moment(50, 0) }));
    assert_eq!(action, ScanAction::FetchOlder { before: 100 });
    let batch = vec![
        Stamp { id: 99, created: moment(40, 0) },
        Stamp { id: 98, created: moment(30, 0) },
        Stamp { id: 97, created: moment(20, 0) },
    ];
    assert_eq!(scan.advance(ScanEvent::Batch(batch)), ScanAction::CheckSeen { message_id: 99 });
    for (id, next) in [(99, ScanAction::CheckSeen { message_id: 98 }), (98, ScanAction::CheckSeen { message_id: 97 }), (97, ScanAction::FetchOlder { before: 97 })] {
        assert_eq!(scan.advance(ScanEvent::Seen(false)), ScanAction::Store { message_id: id });
        assert_eq!(scan.advance(ScanEvent::Stored), next);
    }
}
