//! The `config` command: which of a guild's settings the given options
//! change, and whether the guild has to be indexed again.

use vstd::prelude::*;
use crate::store::{GuildData, db_id, to_db_id};

verus! {

/// The configuration after the given options: each option given replaces
/// its setting (the channel by its id as the database binds it), the others
/// stay.
pub open spec fn configured(
    data: GuildData,
    inactivity_window_days: Option<i64>,
    notification_channel: Option<u64>,
    generate_report_at_hour: Option<i64>,
    warning_threshold_days: Option<i64>,
) -> GuildData {
    GuildData {
        id: data.id,
        inactivity_threshold_days: match inactivity_window_days { Some(d) => d, None => data.inactivity_threshold_days },
        search_window_buffer_days: data.search_window_buffer_days,
        report_channel: match notification_channel { Some(c) => Some(db_id(c)), None => data.report_channel },
        generate_report_at_hour: match generate_report_at_hour { Some(h) => h, None => data.generate_report_at_hour },
        warning_threshold_days: match warning_threshold_days { Some(w) => w, None => data.warning_threshold_days },
    }
}

/// Applies the options of the `config` command to a guild's configuration.
/// The flag says whether the guild must be indexed again: exactly when the
/// inactivity window was given.
pub fn apply_config(
    data: GuildData,
    inactivity_window_days: Option<i64>,
    notification_channel: Option<u64>,
    generate_report_at_hour: Option<i64>,
    warning_threshold_days: Option<i64>,
) -> (r: (GuildData, bool))
    ensures
        r.0 == configured(data, inactivity_window_days, notification_channel, generate_report_at_hour, warning_threshold_days),
        r.1 == inactivity_window_days is Some,
        r.0.id == data.id,
        r.0.search_window_buffer_days == data.search_window_buffer_days,
        r.0.inactivity_threshold_days == match inactivity_window_days { Some(d) => d, None => data.inactivity_threshold_days },
        r.0.report_channel == match notification_channel { Some(c) => Some(c as i64), None => data.report_channel },
        r.0.generate_report_at_hour == match generate_report_at_hour { Some(x) => x, None => data.generate_report_at_hour },
        r.0.warning_threshold_days == match warning_threshold_days { Some(x) => x, None => data.warning_threshold_days },
{
    let mut guild_data = data;
    let mut reindex: bool = false;
    if let Some(days) = inactivity_window_days {
        guild_data.inactivity_threshold_days = days;
        reindex = true;
    }
    if let Some(channel) = notification_channel {
        guild_data.report_channel = Some(to_db_id(channel));
    }
    if let Some(hour) = generate_report_at_hour {
        guild_data.generate_report_at_hour = hour;
    }
    if let Some(days) = warning_threshold_days {
        guild_data.warning_threshold_days = days;
    }
    (guild_data, reindex)
}

/// Every option given is what the configuration then holds, and so what
/// the saving statement writes.
pub proof fn lemma_config_sets_given_options(
    data: GuildData,
    a: Option<i64>,
    c: Option<u64>,
    h: Option<i64>,
    w: Option<i64>,
)
    ensures
        a matches Some(d) ==> configured(data, a, c, h, w).inactivity_threshold_days == d,
        c matches Some(ch) ==> configured(data, a, c, h, w).report_channel == Some(db_id(ch)),
        h matches Some(x) ==> configured(data, a, c, h, w).generate_report_at_hour == x,
        w matches Some(x) ==> configured(data, a, c, h, w).warning_threshold_days == x,
{
}

/// An option that is not given leaves its setting as it was, whatever the
/// other options are.
pub proof fn lemma_absent_option_keeps_setting(
    data: GuildData,
    a: Option<i64>,
    c: Option<u64>,
    h: Option<i64>,
    w: Option<i64>,
)
    ensures
        a is None ==> configured(data, a, c, h, w).inactivity_threshold_days == data.inactivity_threshold_days,
        c is None ==> configured(data, a, c, h, w).report_channel == data.report_channel,
        h is None ==> configured(data, a, c, h, w).generate_report_at_hour == data.generate_report_at_hour,
        w is None ==> configured(data, a, c, h, w).warning_threshold_days == data.warning_threshold_days,
{
}

/// Each setting depends on its own option only: changing the other options
/// does not change it.
pub proof fn lemma_settings_independent(
    data: GuildData,
    a: Option<i64>,
    c: Option<u64>,
    h: Option<i64>,
    w: Option<i64>,
    c2: Option<u64>,
    h2: Option<i64>,
    w2: Option<i64>,
    a2: Option<i64>,
)
    ensures
        configured(data, a, c, h, w).inactivity_threshold_days == configured(data, a, c2, h2, w2).inactivity_threshold_days,
        configured(data, a, c, h, w).report_channel == configured(data, a2, c, h2, w2).report_channel,
        configured(data, a, c, h, w).generate_report_at_hour == configured(data, a2, c2, h, w2).generate_report_at_hour,
        configured(data, a, c, h, w).warning_threshold_days == configured(data, a2, c2, h2, w).warning_threshold_days,
{
}

/// Giving no option changes nothing and asks for no new indexing.
pub proof fn lemma_no_option_no_change(data: GuildData)
    ensures
        configured(data, None, None, None, None) == data,
{
}

/// Applying the same options twice gives what applying them once gives.
pub proof fn lemma_config_idempotent(
    data: GuildData,
    a: Option<i64>,
    c: Option<u64>,
    h: Option<i64>,
    w: Option<i64>,
)
    ensures
        configured(configured(data, a, c, h, w), a, c, h, w) == configured(data, a, c, h, w),
{
}

/// The guild's id and its search buffer are never changed by the command.
pub proof fn lemma_config_keeps_identity(
    data: GuildData,
    a: Option<i64>,
    c: Option<u64>,
    h: Option<i64>,
    w: Option<i64>,
)
    ensures
        configured(data, a, c, h, w).id == data.id,
        configured(data, a, c, h, w).search_window_buffer_days == data.search_window_buffer_days,
{
}

} // verus!
