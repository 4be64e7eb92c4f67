//! The writes the bot makes to its database, with the values bound to
//! each statement.

use vstd::prelude::*;

verus! {

/// The inactivity window, in days, that a guild gets when it is first
/// recorded.
pub const DEFAULT_INACTIVITY_DAYS: i64 = 30;

/// A guild's configuration as the database holds it.
#[derive(Clone, Copy, Debug, PartialEq, Eq, Structural)]
pub struct GuildData {
    pub id: i64,
    pub inactivity_threshold_days: i64,
    pub search_window_buffer_days: i64,
    pub report_channel: Option<i64>,
    pub generate_report_at_hour: i64,
    pub warning_threshold_days: i64,
}

/// One statement for the database, with the values it binds. Ids are bound
/// as `i64` (serenity's `From<Id> for i64`, a plain `as` cast of the id) and
/// instants as unix seconds.
#[derive(Clone, Debug, PartialEq, Eq)]
pub enum DbWrite {
    /// Records a guild with the default window, unless it is recorded.
    AddGuild { guild_id: i64, inactivity_threshold_days: i64 },
    /// Overwrites a guild's settings: window, search buffer, report channel,
    /// report hour and warning threshold.
    UpdateGuild {
        guild_id: i64,
        inactivity_threshold_days: i64,
        search_window_buffer_days: i64,
        report_channel: Option<i64>,
        generate_report_at_hour: i64,
        warning_threshold_days: i64,
    },
    /// Records a user, or keeps it and updates its name when one is given.
    AddUser { user_id: i64, is_bot: bool, username: Option<String> },
    /// Records a channel, or keeps it and updates its name when one is given.
    AddChannel { channel_id: i64, name: Option<String>, guild_id: i64 },
    /// Records a message, or keeps it and overwrites its edit time.
    AddMessage { message_id: i64, channel_id: i64, user_id: Option<i64>, created_at: i64, edited_at: Option<i64> },
    /// Records a reaction of a user to a message, or overwrites its time.
    AddReaction { message_id: i64, user_id: i64, created_at: i64 },
}

/// A Discord id as the database binds it.
pub open spec fn db_id(id: u64) -> i64 {
    id as i64
}

/// A Discord id as the database binds it: serenity's `From<Id> for i64`
/// casts the id's `u64` with `as`.
pub fn to_db_id(id: u64) -> (r: i64)
    ensures
        r == db_id(id),
{
    id as i64
}

/// An optional Discord id as the database binds it.
pub fn to_db_id_opt(id: Option<u64>) -> (r: Option<i64>)
    ensures
        r == match id { Some(i) => Some(db_id(i)), None => None::<i64> },
{
    match id {
        Some(i) => Some(to_db_id(i)),
        None => None,
    }
}

/// Records guild `guild_id` with the default window.
pub fn add_guild(guild_id: u64) -> (r: DbWrite)
    ensures
        r == (DbWrite::AddGuild { guild_id: db_id(guild_id), inactivity_threshold_days: DEFAULT_INACTIVITY_DAYS }),
{
    DbWrite::AddGuild { guild_id: to_db_id(guild_id), inactivity_threshold_days: DEFAULT_INACTIVITY_DAYS }
}

/// Saves a guild's configuration: every setting of `data` is written for
/// the guild `data.id`.
pub fn update_guild(data: &GuildData) -> (r: DbWrite)
    ensures
        r == (DbWrite::UpdateGuild {
            guild_id: data.id,
            inactivity_threshold_days: data.inactivity_threshold_days,
            search_window_buffer_days: data.search_window_buffer_days,
            report_channel: data.report_channel,
            generate_report_at_hour: data.generate_report_at_hour,
            warning_threshold_days: data.warning_threshold_days,
        }),
{
    DbWrite::UpdateGuild {
        guild_id: data.id,
        inactivity_threshold_days: data.inactivity_threshold_days,
        search_window_buffer_days: data.search_window_buffer_days,
        report_channel: data.report_channel,
        generate_report_at_hour: data.generate_report_at_hour,
        warning_threshold_days: data.warning_threshold_days,
    }
}

/// Records user `user_id`; a given name replaces the stored one.
pub fn add_user(user_id: u64, is_bot: bool, username: Option<String>) -> (r: DbWrite)
    ensures
        r == (DbWrite::AddUser { user_id: db_id(user_id), is_bot, username }),
{
    DbWrite::AddUser { user_id: to_db_id(user_id), is_bot, username }
}

/// Records channel `channel_id` of guild `guild_id`; a given name replaces
/// the stored one.
pub fn add_channel(channel_id: u64, name: Option<String>, guild_id: u64) -> (r: DbWrite)
    ensures
        r == (DbWrite::AddChannel { channel_id: db_id(channel_id), name, guild_id: db_id(guild_id) }),
{
    DbWrite::AddChannel { channel_id: to_db_id(channel_id), name, guild_id: to_db_id(guild_id) }
}

/// Records a message sent at `created_at` (unix seconds) and last edited at
/// `edited_at`.
pub fn add_message(message_id: u64, channel_id: u64, user_id: Option<u64>, created_at: i64, edited_at: Option<i64>) -> (r: DbWrite)
    ensures
        r == (DbWrite::AddMessage {
            message_id: db_id(message_id),
            channel_id: db_id(channel_id),
            user_id: match user_id { Some(u) => Some(db_id(u)), None => None::<i64> },
            created_at,
            edited_at,
        }),
{
    DbWrite::AddMessage {
        message_id: to_db_id(message_id),
        channel_id: to_db_id(channel_id),
        user_id: to_db_id_opt(user_id),
        created_at,
        edited_at,
    }
}

/// Records the reaction of user `user_id` to a message at `created_at`.
pub fn add_reaction(message_id: u64, user_id: u64, created_at: i64) -> (r: DbWrite)
    ensures
        r == (DbWrite::AddReaction { message_id: db_id(message_id), user_id: db_id(user_id), created_at }),
{
    DbWrite::AddReaction { message_id: to_db_id(message_id), user_id: to_db_id(user_id), created_at }
}

} // verus!
