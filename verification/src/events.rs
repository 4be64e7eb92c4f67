//! What the bot records for the gateway events it listens to.

use vstd::prelude::*;
use crate::store::{DbWrite, db_id, add_user, add_message, add_channel, add_reaction};
use crate::time::{secs_in_range, timestamp_now_secs};

verus! {

/// A message as the bot records it: ids, its author, and when it was sent
/// and last edited (unix seconds).
#[derive(Clone, Debug, PartialEq, Eq)]
pub struct MessageRecord {
    pub message_id: u64,
    pub channel_id: u64,
    pub author_id: u64,
    pub author_is_bot: bool,
    pub author_name: String,
    pub timestamp: i64,
    pub edited_timestamp: Option<i64>,
}

/// The writes that record a message: its author (bot flag and name), then
/// the message itself.
pub open spec fn message_writes_of(m: MessageRecord) -> Seq<DbWrite> {
    seq![
        DbWrite::AddUser { user_id: db_id(m.author_id), is_bot: m.author_is_bot, username: Some(m.author_name) },
        DbWrite::AddMessage {
            message_id: db_id(m.message_id),
            channel_id: db_id(m.channel_id),
            user_id: Some(db_id(m.author_id)),
            created_at: m.timestamp,
            edited_at: m.edited_timestamp,
        },
    ]
}

/// The writes that record a message: its author, then the message.
pub fn message_writes(m: MessageRecord) -> (r: Vec<DbWrite>)
    ensures
        r@ == message_writes_of(m),
        r@.len() == 2,
        r@[0] == (DbWrite::AddUser { user_id: m.author_id as i64, is_bot: m.author_is_bot, username: Some(m.author_name) }),
        r@[1] == (DbWrite::AddMessage {
            message_id: m.message_id as i64,
            channel_id: m.channel_id as i64,
            user_id: Some(m.author_id as i64),
            created_at: m.timestamp,
            edited_at: m.edited_timestamp,
        }),
{
    let ghost m0 = m;
    let mut r: Vec<DbWrite> = Vec::new();
    r.push(add_user(m.author_id, m.author_is_bot, Some(m.author_name)));
    r.push(add_message(m.message_id, m.channel_id, Some(m.author_id), m.timestamp, m.edited_timestamp));
    assert(r@ =~= message_writes_of(m0));
    r
}

/// The writes that record the reactions of `reactors` to a message, in
/// order, all at the given time.
pub open spec fn reaction_writes_of(message_id: u64, reactors: Seq<u64>, created_at: i64) -> Seq<DbWrite> {
    reactors.map_values(|u: u64| DbWrite::AddReaction { message_id: db_id(message_id), user_id: db_id(u), created_at })
}

/// The writes that record the reactions of `reactors` to a message.
pub fn reaction_writes(message_id: u64, reactors: &Vec<u64>, created_at: i64) -> (r: Vec<DbWrite>)
    ensures
        r@ == reaction_writes_of(message_id, reactors@, created_at),
        r@.len() == reactors@.len(),
        forall|i: int| 0 <= i < reactors@.len() ==> r@[i] == (DbWrite::AddReaction {
            message_id: message_id as i64,
            user_id: reactors@[i] as i64,
            created_at,
        }),
{
    let mut r: Vec<DbWrite> = Vec::new();
    let mut i: usize = 0;
    while i < reactors.len()
        invariant
            i <= reactors.len(),
            r@ == reaction_writes_of(message_id, reactors@.take(i as int), created_at),
        decreases reactors.len() - i,
    {
        r.push(add_reaction(message_id, reactors[i], created_at));
        i = i + 1;
        assert(r@ =~= reaction_writes_of(message_id, reactors@.take(i as int), created_at));
    }
    assert(reactors@.take(reactors.len() as int) =~= reactors@);
    r
}

/// A member of a guild as indexing records it.
#[derive(Clone, Debug, PartialEq, Eq)]
pub struct MemberProfile {
    pub user_id: u64,
    pub is_bot: bool,
    pub name: String,
}

/// The writes that record a guild's current members, in order, each with
/// its bot flag and name.
pub open spec fn member_writes_of(members: Seq<MemberProfile>) -> Seq<DbWrite> {
    members.map_values(|m: MemberProfile| DbWrite::AddUser { user_id: db_id(m.user_id), is_bot: m.is_bot, username: Some(m.name) })
}

/// The writes that record a guild's current members before its channels
/// are indexed.
pub fn member_writes(members: &Vec<MemberProfile>) -> (r: Vec<DbWrite>)
    ensures
        r@ == member_writes_of(members@),
        r@.len() == members@.len(),
        forall|i: int| 0 <= i < members@.len() ==> r@[i] == (DbWrite::AddUser {
            user_id: members@[i].user_id as i64,
            is_bot: members@[i].is_bot,
            username: Some(members@[i].name),
        }),
{
    let mut r: Vec<DbWrite> = Vec::new();
    let mut i: usize = 0;
    while i < members.len()
        invariant
            i <= members.len(),
            r@ == member_writes_of(members@.take(i as int)),
        decreases members.len() - i,
    {
        let name = members[i].name.clone();
        r.push(add_user(members[i].user_id, members[i].is_bot, Some(name)));
        i = i + 1;
        assert(r@ =~= member_writes_of(members@.take(i as int)));
    }
    assert(members@.take(members.len() as int) =~= members@);
    r
}

/// A channel of a guild as indexing sees it.
#[derive(Clone, Debug, PartialEq, Eq)]
pub struct ChannelInfo {
    pub channel_id: u64,
    pub name: String,
    pub guild_id: u64,
    pub text_based: bool,
}

/// The write that records a channel before it is indexed: only text
/// channels are recorded (and indexed), with their name.
pub fn channel_write(c: ChannelInfo) -> (r: Option<DbWrite>)
    ensures
        r == if c.text_based {
            Some(DbWrite::AddChannel { channel_id: db_id(c.channel_id), name: Some(c.name), guild_id: db_id(c.guild_id) })
        } else {
            None
        },
{
    if c.text_based {
        Some(add_channel(c.channel_id, Some(c.name), c.guild_id))
    } else {
        None
    }
}

/// A gateway event, with what the bot reads of it.
#[derive(Clone, Debug)]
pub enum GatewayEvent {
    /// The bot is connected; these are its guilds.
    Ready { guild_ids: Vec<u64> },
    /// A message was sent, in a guild or not.
    Message { guild_id: Option<u64>, message: MessageRecord },
    /// A reaction was added, possibly outside a guild, possibly without a
    /// known user.
    ReactionAdd {
        guild_id: Option<u64>,
        user_id: Option<u64>,
        channel_id: u64,
        message_id: u64,
        message_author_id: Option<u64>,
    },
    /// Any other event.
    Other,
}

/// Why an event is skipped with a warning.
#[derive(Clone, Copy, Debug, PartialEq, Eq, Structural)]
pub enum SkipReason {
    NotInGuild,
    NoUser,
}

/// What the bot does for an event.
#[derive(Debug, PartialEq, Eq)]
pub enum EventPlan {
    /// Nothing.
    Ignore,
    /// Nothing, with a warning.
    Skip(SkipReason),
    /// For each guild, on its own task: record the guild, then index it.
    SetUpGuilds(Vec<u64>),
    /// Run the writes in order, stopping at the first error.
    Record(Vec<DbWrite>),
}

/// What the bot does for an event, with sequences in place of vectors.
pub enum EventPlanView {
    Ignore,
    Skip(SkipReason),
    SetUpGuilds(Seq<u64>),
    Record(Seq<DbWrite>),
}

impl View for EventPlan {
    type V = EventPlanView;

    open spec fn view(&self) -> EventPlanView {
        match self {
            EventPlan::Ignore => EventPlanView::Ignore,
            EventPlan::Skip(r) => EventPlanView::Skip(*r),
            EventPlan::SetUpGuilds(g) => EventPlanView::SetUpGuilds(g@),
            EventPlan::Record(w) => EventPlanView::Record(w@),
        }
    }
}

/// What the bot does for an event, where a reaction's message is recorded
/// as sent at `message_time` and the reaction as added at `reaction_time`
/// (the bot reads the clock for each).
pub open spec fn plan_for(e: GatewayEvent, message_time: i64, reaction_time: i64) -> EventPlanView {
    match e {
        GatewayEvent::Ready { guild_ids } => EventPlanView::SetUpGuilds(guild_ids@),
        GatewayEvent::Message { guild_id, message } => match guild_id {
            None => EventPlanView::Skip(SkipReason::NotInGuild),
            Some(g) => EventPlanView::Record(
                seq![DbWrite::AddChannel { channel_id: db_id(message.channel_id), name: None, guild_id: db_id(g) }]
                    + message_writes_of(message),
            ),
        },
        GatewayEvent::ReactionAdd { guild_id, user_id, channel_id, message_id, message_author_id } => match guild_id {
            None => EventPlanView::Skip(SkipReason::NotInGuild),
            Some(g) => match user_id {
                None => EventPlanView::Skip(SkipReason::NoUser),
                Some(u) => EventPlanView::Record(seq![
                    DbWrite::AddChannel { channel_id: db_id(channel_id), name: None, guild_id: db_id(g) },
                    DbWrite::AddUser { user_id: db_id(u), is_bot: false, username: None },
                    DbWrite::AddMessage {
                        message_id: db_id(message_id),
                        channel_id: db_id(channel_id),
                        user_id: match message_author_id { Some(a) => Some(db_id(a)), None => None },
                        created_at: message_time,
                        edited_at: None,
                    },
                    DbWrite::AddReaction { message_id: db_id(message_id), user_id: db_id(u), created_at: reaction_time },
                ]),
            },
        },
        GatewayEvent::Other => EventPlanView::Ignore,
    }
}

/// What recording a message writes about its author and itself, for every
/// message: the author's id, bot flag and name, then the message with the
/// author as its user.
pub proof fn lemma_message_writes_credit_author(m: MessageRecord)
    ensures
        message_writes_of(m).len() == 2,
        message_writes_of(m)[0] matches DbWrite::AddUser { user_id, is_bot, username }
            && user_id == m.author_id as i64 && is_bot == m.author_is_bot && username == Some(m.author_name),
        message_writes_of(m)[1] matches DbWrite::AddMessage { message_id, channel_id, user_id, created_at, edited_at }
            && message_id == m.message_id as i64 && channel_id == m.channel_id as i64
            && user_id == Some(m.author_id as i64) && created_at == m.timestamp && edited_at == m.edited_timestamp,
{
}

/// An added reaction in a guild, with its user known, is recorded for that
/// user: the reaction write, and the user write, bind the reacting user's
/// id whatever the message's author is; the message write carries the
/// author; all writes are for the event's channel and message.
pub proof fn lemma_reaction_credited_to_reactor(
    g: u64,
    u: u64,
    channel_id: u64,
    message_id: u64,
    author: Option<u64>,
    message_time: i64,
    reaction_time: i64,
)
    ensures
        ({
            let e = GatewayEvent::ReactionAdd { guild_id: Some(g), user_id: Some(u), channel_id, message_id, message_author_id: author };
            &&& plan_for(e, message_time, reaction_time) is Record
            &&& {
                let w = plan_for(e, message_time, reaction_time)->Record_0;
                &&& w.len() == 4
                &&& w[0] matches DbWrite::AddChannel { channel_id: c, name, guild_id }
                    && c == channel_id as i64 && name is None && guild_id == g as i64
                &&& w[1] matches DbWrite::AddUser { user_id, is_bot, username }
                    && user_id == u as i64 && !is_bot && username is None
                &&& w[2] matches DbWrite::AddMessage { message_id: mid, channel_id: c, user_id, created_at, edited_at }
                    && mid == message_id as i64 && c == channel_id as i64 && created_at == message_time && edited_at is None
                    && user_id == match author { Some(a) => Some(a as i64), None => None::<i64> }
                &&& w[3] matches DbWrite::AddReaction { message_id: mid, user_id, created_at }
                    && mid == message_id as i64 && user_id == u as i64 && created_at == reaction_time
                &&& forall|i: int| 0 <= i < w.len() && (#[trigger] w[i] is AddReaction) ==> w[i]->AddReaction_user_id == u as i64
            }
        }),
{
}

/// Events outside a guild, and reactions without a known user, record
/// nothing; the other events ask for nothing to be written but the ready
/// event's guild setup.
pub proof fn lemma_unrecorded_events(m: MessageRecord, g: Option<u64>, channel_id: u64, message_id: u64, author: Option<u64>, t1: i64, t2: i64)
    ensures
        plan_for(GatewayEvent::Message { guild_id: None, message: m }, t1, t2) == EventPlanView::Skip(SkipReason::NotInGuild),
        plan_for(
            GatewayEvent::ReactionAdd { guild_id: None, user_id: g, channel_id, message_id, message_author_id: author },
            t1, t2,
        ) == EventPlanView::Skip(SkipReason::NotInGuild),
        g is Some ==> plan_for(
            GatewayEvent::ReactionAdd { guild_id: g, user_id: None, channel_id, message_id, message_author_id: author },
            t1, t2,
        ) == EventPlanView::Skip(SkipReason::NoUser),
        plan_for(GatewayEvent::Other, t1, t2) == EventPlanView::Ignore,
{
}

/// A message in a guild is recorded with its channel in that guild, its
/// author (id, bot flag, name) and itself credited to the author.
pub proof fn lemma_guild_message_recorded(g: u64, m: MessageRecord, t1: i64, t2: i64)
    ensures
        ({
            let p = plan_for(GatewayEvent::Message { guild_id: Some(g), message: m }, t1, t2);
            &&& p is Record
            &&& {
                let w = p->Record_0;
                &&& w.len() == 3
                &&& w[0] matches DbWrite::AddChannel { channel_id, name, guild_id }
                    && channel_id == m.channel_id as i64 && name is None && guild_id == g as i64
                &&& w[1] matches DbWrite::AddUser { user_id, is_bot, username }
                    && user_id == m.author_id as i64 && is_bot == m.author_is_bot && username == Some(m.author_name)
                &&& w[2] matches DbWrite::AddMessage { message_id, user_id, created_at, .. }
                    && message_id == m.message_id as i64 && user_id == Some(m.author_id as i64) && created_at == m.timestamp
            }
        }),
{
}

/// Decides what the bot does for an event, as `plan_for` states, with the
/// given times for a reaction.
pub fn plan_event_at(e: GatewayEvent, message_time: i64, reaction_time: i64) -> (r: EventPlan)
    ensures
        r@ == plan_for(e, message_time, reaction_time),
{
    let ghost e0 = e;
    match e {
        GatewayEvent::Ready { guild_ids } => EventPlan::SetUpGuilds(guild_ids),
        GatewayEvent::Message { guild_id, message } => match guild_id {
            None => EventPlan::Skip(SkipReason::NotInGuild),
            Some(g) => {
                let ghost m0 = message;
                let mut writes: Vec<DbWrite> = Vec::new();
                writes.push(add_channel(message.channel_id, None, g));
                let mut rest = message_writes(message);
                writes.append(&mut rest);
                assert(writes@ =~= seq![DbWrite::AddChannel { channel_id: db_id(m0.channel_id), name: None, guild_id: db_id(g) }]
                    + message_writes_of(m0));
                EventPlan::Record(writes)
            },
        },
        GatewayEvent::ReactionAdd { guild_id, user_id, channel_id, message_id, message_author_id } => match guild_id {
            None => EventPlan::Skip(SkipReason::NotInGuild),
            Some(g) => match user_id {
                None => EventPlan::Skip(SkipReason::NoUser),
                Some(u) => {
                    let mut writes: Vec<DbWrite> = Vec::new();
                    writes.push(add_channel(channel_id, None, g));
                    writes.push(add_user(u, false, None));
                    writes.push(add_message(message_id, channel_id, message_author_id, message_time, None));
                    writes.push(add_reaction(message_id, u, reaction_time));
                    assert(writes@ =~= plan_for(e0, message_time, reaction_time)->Record_0);
                    EventPlan::Record(writes)
                },
            },
        },
        GatewayEvent::Other => EventPlan::Ignore,
    }
}

/// Decides what the bot does for an event; for an added reaction, reads the
/// clock (serenity's `Timestamp::now`) once for the message's time and once
/// for the reaction's.
pub fn plan_event(e: GatewayEvent) -> (r: EventPlan)
    ensures
        exists|message_time: i64, reaction_time: i64| #![auto]
            0 <= message_time && 0 <= reaction_time
            && secs_in_range(message_time as int) && secs_in_range(reaction_time as int)
            && r@ == plan_for(e, message_time, reaction_time),
{
    let mut message_time: i64 = 0;
    let mut reaction_time: i64 = 0;
    if let GatewayEvent::ReactionAdd { .. } = &e {
        message_time = timestamp_now_secs();
        reaction_time = timestamp_now_secs();
    }
    plan_event_at(e, message_time, reaction_time)
}

} // verus!
