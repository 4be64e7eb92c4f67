//! Indexing of one text channel, as a state machine: the driver fetches
//! messages and talks to the database, the machine decides what comes
//! next. First the messages older than the oldest one already stored are
//! walked back in batches, down to the look-back instant; then the channel
//! is walked from its newest message until a message is older than the
//! look-back instant or already stored.

use vstd::prelude::*;
use crate::time::{Moment, spec_days_before, days_before, utc_now, lemma_days_before_defined, MAX_SPAN_DAYS_FROM_EPOCH};

verus! {

/// The instant before which nothing is indexed: `now` minus the guild's
/// inactivity window and minus its search buffer, both in days. `None`
/// where `chrono` panics in `now - Duration::days(a) - Duration::days(b)`.
pub open spec fn spec_lookback(now: Moment, threshold_days: int, buffer_days: int) -> Option<Moment> {
    match spec_days_before(now, threshold_days) {
        Some(m) => spec_days_before(m, buffer_days),
        None => None,
    }
}

/// The look-back instant of a guild, as `spec_lookback` states.
pub fn lookback(now: Moment, threshold_days: i64, buffer_days: i64) -> (r: Option<Moment>)
    requires
        now.wf(),
    ensures
        r == spec_lookback(now, threshold_days as int, buffer_days as int),
        r matches Some(m) ==> m.wf(),
{
    match days_before(now, threshold_days) {
        Some(m) => days_before(m, buffer_days),
        None => None,
    }
}

/// The look-back instant of a guild as of the present instant, read from
/// the clock (`chrono::Utc::now`, never before the epoch). Windows that
/// together span at most `MAX_SPAN_DAYS_FROM_EPOCH` days always give one.
pub fn lookback_now(threshold_days: i64, buffer_days: i64) -> (r: Option<Moment>)
    ensures
        exists|now: Moment| #![auto]
            now.wf() && now.secs >= 0 && r == spec_lookback(now, threshold_days as int, buffer_days as int),
        r matches Some(m) ==> m.wf(),
        0 <= threshold_days && 0 <= buffer_days && threshold_days + buffer_days <= MAX_SPAN_DAYS_FROM_EPOCH
            ==> r is Some,
{
    let now = utc_now();
    let r = lookback(now, threshold_days, buffer_days);
    proof {
        if 0 <= threshold_days && 0 <= buffer_days && threshold_days + buffer_days <= MAX_SPAN_DAYS_FROM_EPOCH {
            lemma_lookback_defined(now, threshold_days as int, buffer_days as int);
        }
    }
    r
}

/// From an instant at or after the epoch, windows that together span at
/// most `MAX_SPAN_DAYS_FROM_EPOCH` days always give a look-back instant.
pub proof fn lemma_lookback_defined(now: Moment, threshold_days: int, buffer_days: int)
    requires
        now.wf(),
        now.secs >= 0,
        0 <= threshold_days,
        0 <= buffer_days,
        threshold_days + buffer_days <= MAX_SPAN_DAYS_FROM_EPOCH,
    ensures
        spec_lookback(now, threshold_days, buffer_days) is Some,
{
    lemma_days_before_defined(now, threshold_days);
    let m = spec_days_before(now, threshold_days)->0;
    assert(m.secs == now.secs - threshold_days * 86400);
    assert(m.secs >= -(MAX_SPAN_DAYS_FROM_EPOCH - buffer_days) * 86400) by (nonlinear_arith)
        requires
            m.secs == now.secs - threshold_days * 86400,
            now.secs >= 0,
            threshold_days <= MAX_SPAN_DAYS_FROM_EPOCH - buffer_days,
    ;
    assert(buffer_days * 86400 <= MAX_SPAN_DAYS_FROM_EPOCH * 86400) by (nonlinear_arith)
        requires
            0 <= buffer_days <= MAX_SPAN_DAYS_FROM_EPOCH,
    ;
}

/// A message as the machine sees it: its id and when it was sent.
#[derive(Clone, Copy, Debug, PartialEq, Eq, Structural)]
pub struct Stamp {
    pub id: u64,
    pub created: Moment,
}

/// The oldest message of the channel that the database holds: its id as
/// stored and when it was sent.
#[derive(Clone, Copy, Debug, PartialEq, Eq, Structural)]
pub struct StoredMessage {
    pub id: i64,
    pub created: Moment,
}

/// Which walk the scan is on.
#[derive(Clone, Copy, Debug, PartialEq, Eq, Structural)]
pub enum Phase {
    /// Walking back in batches of messages older than `before`.
    Older,
    /// Walking from the newest message, one at a time.
    Newer,
    /// Finished with the channel.
    Done,
}

/// What answer the scan waits for.
#[derive(Clone, Copy, Debug, PartialEq, Eq, Structural)]
pub enum Awaiting {
    /// Messages (a batch, or the next message).
    Fetch,
    /// Whether the current message is stored already.
    Seen,
    /// The confirmation that the current message was stored.
    Stored,
}

/// What the driver is asked to do next.
#[derive(Clone, Copy, Debug, PartialEq, Eq, Structural)]
pub enum ScanAction {
    /// Fetch the batch of messages sent before message `before`, newest
    /// first, and answer with `ScanEvent::Batch`.
    FetchOlder { before: u64 },
    /// Fetch the next message of the walk from the newest one, and answer
    /// with `ScanEvent::Next`.
    FetchNewer,
    /// Look the message up in the database, and answer with `ScanEvent::Seen`.
    CheckSeen { message_id: u64 },
    /// Store the message (its author, itself and its reactions), and answer
    /// with `ScanEvent::Stored`.
    Store { message_id: u64 },
    /// The channel is done.
    Finish,
}

/// An answer of the driver.
#[derive(Clone, Debug)]
pub enum ScanEvent {
    /// The batch asked for by `FetchOlder`, newest first.
    Batch(Vec<Stamp>),
    /// The message asked for by `FetchNewer`; `None` at the end of the
    /// channel or when fetching failed.
    Next(Option<Stamp>),
    /// Whether the message asked about by `CheckSeen` is stored already.
    Seen(bool),
    /// The message asked for by `Store` was stored.
    Stored,
}

/// An answer of the driver, with its batch as a sequence.
pub enum ScanEventView {
    Batch(Seq<Stamp>),
    Next(Option<Stamp>),
    Seen(bool),
    Stored,
}

impl View for ScanEvent {
    type V = ScanEventView;

    open spec fn view(&self) -> ScanEventView {
        match self {
            ScanEvent::Batch(b) => ScanEventView::Batch(b@),
            ScanEvent::Next(m) => ScanEventView::Next(*m),
            ScanEvent::Seen(s) => ScanEventView::Seen(*s),
            ScanEvent::Stored => ScanEventView::Stored,
        }
    }
}

/// The state of the indexing of one channel.
#[derive(Clone, Debug)]
pub struct ChannelScan {
    /// Messages sent before this instant are not indexed.
    pub lookback: Moment,
    /// Which walk the scan is on.
    pub phase: Phase,
    /// In the walk back: the message before which the next batch is asked.
    pub before: u64,
    /// The messages of the current batch that are not handled yet, the
    /// current one first (in the walk from the newest message, at most the
    /// current one).
    pub queue: Vec<Stamp>,
    /// What answer the scan waits for.
    pub awaiting: Awaiting,
}

/// The state of a scan, with its queue as a sequence.
pub struct ScanView {
    pub lookback: Moment,
    pub phase: Phase,
    pub before: u64,
    pub queue: Seq<Stamp>,
    pub awaiting: Awaiting,
}

impl View for ChannelScan {
    type V = ScanView;

    open spec fn view(&self) -> ScanView {
        ScanView {
            lookback: self.lookback,
            phase: self.phase,
            before: self.before,
            queue: self.queue@,
            awaiting: self.awaiting,
        }
    }
}

/// A message sent strictly before the look-back instant.
pub open spec fn too_old(lookback: Moment, m: Stamp) -> bool {
    lookback.is_after(m.created)
}

impl ScanView {
    /// The scan's states that `start` and `advance` reach: a scan that waits
    /// about a message has one, the walk from the newest message holds at
    /// most one, and a finished scan holds none and waits for nothing.
    pub open spec fn wf(self) -> bool {
        &&& (self.awaiting is Seen || self.awaiting is Stored) ==> self.queue.len() > 0
        &&& self.awaiting is Fetch ==> self.queue.len() == 0
        &&& self.phase is Newer ==> self.queue.len() <= 1
        &&& self.phase is Done ==> self.awaiting is Fetch
        &&& (self.awaiting is Seen || self.awaiting is Stored) ==> !too_old(self.lookback, self.queue[0])
    }

    /// The scan finished with the channel.
    pub open spec fn finished(self) -> ScanView {
        ScanView { phase: Phase::Done, queue: Seq::empty(), awaiting: Awaiting::Fetch, ..self }
    }

    /// The walk ends at the current message: the walk back gives way to the
    /// walk from the newest message, which ends the channel.
    pub open spec fn stop_walk(self) -> (ScanView, ScanAction) {
        if self.phase is Older {
            (ScanView { phase: Phase::Newer, queue: Seq::empty(), awaiting: Awaiting::Fetch, ..self }, ScanAction::FetchNewer)
        } else {
            (self.finished(), ScanAction::Finish)
        }
    }

    /// Deciding on the current message (the first of the queue): one sent
    /// before the look-back instant ends the walk, any other is looked up.
    pub open spec fn consider_front(self) -> (ScanView, ScanAction) {
        if too_old(self.lookback, self.queue[0]) {
            self.stop_walk()
        } else {
            (ScanView { awaiting: Awaiting::Seen, ..self }, ScanAction::CheckSeen { message_id: self.queue[0].id })
        }
    }

    /// After the current message was stored: the next message of the batch,
    /// or the next batch, or the next message from the newest.
    pub open spec fn after_store(self) -> (ScanView, ScanAction) {
        let rest = self.queue.drop_first();
        if self.phase is Older {
            if rest.len() == 0 {
                (ScanView { queue: rest, awaiting: Awaiting::Fetch, ..self }, ScanAction::FetchOlder { before: self.before })
            } else {
                ScanView { queue: rest, ..self }.consider_front()
            }
        } else {
            (ScanView { queue: rest, awaiting: Awaiting::Fetch, ..self }, ScanAction::FetchNewer)
        }
    }

    /// One step of the scan: its next state and what the driver is asked to
    /// do. An answer that does not fit what the scan waits for ends it.
    pub open spec fn step(self, e: ScanEventView) -> (ScanView, ScanAction) {
        if self.phase is Done {
            (self, ScanAction::Finish)
        } else {
            match (self.awaiting, e) {
                (Awaiting::Fetch, ScanEventView::Batch(b)) if self.phase is Older => {
                    if b.len() == 0 {
                        (ScanView { phase: Phase::Newer, ..self }, ScanAction::FetchNewer)
                    } else {
                        ScanView { before: b.last().id, queue: b, ..self }.consider_front()
                    }
                },
                (Awaiting::Fetch, ScanEventView::Next(m)) if self.phase is Newer => {
                    match m {
                        None => (self.finished(), ScanAction::Finish),
                        Some(m) => ScanView { queue: seq![m], ..self }.consider_front(),
                    }
                },
                (Awaiting::Seen, ScanEventView::Seen(seen)) => {
                    if seen {
                        self.stop_walk()
                    } else {
                        (ScanView { awaiting: Awaiting::Stored, ..self }, ScanAction::Store { message_id: self.queue[0].id })
                    }
                },
                (Awaiting::Stored, ScanEventView::Stored) => self.after_store(),
                _ => (self.finished(), ScanAction::Finish),
            }
        }
    }
}

/// How a channel's scan begins, given the oldest message stored of it:
/// none stored, the walk from the newest message; stored back to before the
/// look-back instant, nothing to do; otherwise the walk back from it.
pub open spec fn spec_start(lookback: Moment, oldest: Option<StoredMessage>) -> (ScanView, ScanAction) {
    let base = ScanView { lookback, phase: Phase::Newer, before: 0, queue: Seq::empty(), awaiting: Awaiting::Fetch };
    match oldest {
        None => (base, ScanAction::FetchNewer),
        Some(o) => if lookback.is_after(o.created) {
            (ScanView { phase: Phase::Done, ..base }, ScanAction::Finish)
        } else {
            (ScanView { phase: Phase::Older, before: o.id as u64, ..base }, ScanAction::FetchOlder { before: o.id as u64 })
        },
    }
}

impl ChannelScan {
    /// Begins the scan of a channel, as `spec_start` states.
    pub fn start(lookback: Moment, oldest: Option<StoredMessage>) -> (r: (ChannelScan, ScanAction))
        ensures
            (r.0@, r.1) == spec_start(lookback, oldest),
            r.0@.wf(),
    {
        let queue: Vec<Stamp> = Vec::new();
        match oldest {
            None => (ChannelScan { lookback, phase: Phase::Newer, before: 0, queue, awaiting: Awaiting::Fetch }, ScanAction::FetchNewer),
            Some(o) => {
                if lookback.after(&o.created) {
                    (ChannelScan { lookback, phase: Phase::Done, before: 0, queue, awaiting: Awaiting::Fetch }, ScanAction::Finish)
                } else {
                    let before: u64 = o.id as u64;
                    (ChannelScan { lookback, phase: Phase::Older, before, queue, awaiting: Awaiting::Fetch }, ScanAction::FetchOlder { before })
                }
            },
        }
    }

    fn finish(&mut self) -> (r: ScanAction)
        ensures
            final(self)@ == old(self)@.finished(),
            r == ScanAction::Finish,
    {
        self.phase = Phase::Done;
        self.queue = Vec::new();
        self.awaiting = Awaiting::Fetch;
        ScanAction::Finish
    }

    fn stop_walk(&mut self) -> (r: ScanAction)
        requires
            !(old(self).phase is Done),
        ensures
            (final(self)@, r) == old(self)@.stop_walk(),
    {
        if self.phase == Phase::Older {
            self.phase = Phase::Newer;
            self.queue = Vec::new();
            self.awaiting = Awaiting::Fetch;
            assert(self@.queue =~= Seq::<Stamp>::empty());
            ScanAction::FetchNewer
        } else {
            self.finish()
        }
    }

    fn consider_front(&mut self) -> (r: ScanAction)
        requires
            old(self).queue.len() > 0,
            !(old(self).phase is Done),
        ensures
            (final(self)@, r) == old(self)@.consider_front(),
    {
        let front = self.queue[0];
        if self.lookback.after(&front.created) {
            self.stop_walk()
        } else {
            self.awaiting = Awaiting::Seen;
            ScanAction::CheckSeen { message_id: front.id }
        }
    }

    fn after_store(&mut self) -> (r: ScanAction)
        requires
            old(self).queue.len() > 0,
            !(old(self).phase is Done),
        ensures
            (final(self)@, r) == old(self)@.after_store(),
    {
        self.queue.remove(0);
        assert(self.queue@ =~= old(self).queue@.drop_first());
        if self.phase == Phase::Older {
            if self.queue.len() == 0 {
                self.awaiting = Awaiting::Fetch;
                ScanAction::FetchOlder { before: self.before }
            } else {
                self.consider_front()
            }
        } else {
            self.awaiting = Awaiting::Fetch;
            ScanAction::FetchNewer
        }
    }

    /// Takes the driver's answer and says what to do next, as
    /// `ScanView::step` states.
    pub fn advance(&mut self, event: ScanEvent) -> (r: ScanAction)
        requires
            old(self)@.wf(),
        ensures
            (final(self)@, r) == old(self)@.step(event@),
            final(self)@.wf(),
    {
        if self.phase == Phase::Done {
            return ScanAction::Finish;
        }
        match event {
            ScanEvent::Batch(batch) => {
                if self.awaiting == Awaiting::Fetch && self.phase == Phase::Older {
                    if batch.len() == 0 {
                        self.phase = Phase::Newer;
                        ScanAction::FetchNewer
                    } else {
                        self.before = batch[batch.len() - 1].id;
                        self.queue = batch;
                        self.consider_front()
                    }
                } else {
                    self.finish()
                }
            },
            ScanEvent::Next(next) => {
                if self.awaiting == Awaiting::Fetch && self.phase == Phase::Newer {
                    match next {
                        None => self.finish(),
                        Some(m) => {
                            let mut q: Vec<Stamp> = Vec::new();
                            q.push(m);
                            self.queue = q;
                            assert(self.queue@ =~= seq![m]);
                            self.consider_front()
                        },
                    }
                } else {
                    self.finish()
                }
            },
            ScanEvent::Seen(seen) => {
                if self.awaiting == Awaiting::Seen {
                    if seen {
                        self.stop_walk()
                    } else {
                        self.awaiting = Awaiting::Stored;
                        ScanAction::Store { message_id: self.queue[0].id }
                    }
                } else {
                    self.finish()
                }
            },
            ScanEvent::Stored => {
                if self.awaiting == Awaiting::Stored {
                    self.after_store()
                } else {
                    self.finish()
                }
            },
        }
    }
}

/// The rank of a walk: the walk back, then the walk from the newest
/// message, then the end.
pub open spec fn phase_rank(p: Phase) -> int {
    match p {
        Phase::Older => 0,
        Phase::Newer => 1,
        Phase::Done => 2,
    }
}

/// A message is stored only when the driver answered that it is not stored
/// yet, right after the scan asked about it, and only if it was sent at or
/// after the look-back instant.
pub proof fn lemma_store_only_fresh_in_window(s: ScanView, e: ScanEventView)
    requires
        s.wf(),
        s.step(e).1 is Store,
    ensures
        e == ScanEventView::Seen(false),
        s.awaiting is Seen,
        s.step(e).1 == (ScanAction::Store { message_id: s.queue[0].id }),
        !too_old(s.lookback, s.queue[0]),
{
    if !(s.phase is Done) {
        match (s.awaiting, e) {
            (Awaiting::Fetch, ScanEventView::Batch(b)) => {
                if s.phase is Older && b.len() > 0 {
                    let t = ScanView { before: b.last().id, queue: b, ..s };
                    if too_old(t.lookback, t.queue[0]) {
                        assert(!(t.stop_walk().1 is Store));
                    }
                }
            },
            (Awaiting::Fetch, ScanEventView::Next(m)) => {
                if s.phase is Newer && m is Some {
                    let t = ScanView { queue: seq![m->0], ..s };
                    if too_old(t.lookback, t.queue[0]) {
                        assert(!(t.stop_walk().1 is Store));
                    }
                }
            },
            (Awaiting::Stored, ScanEventView::Stored) => {
                let rest = s.queue.drop_first();
                if s.phase is Older && rest.len() > 0 {
                    let t = ScanView { queue: rest, ..s };
                    if too_old(t.lookback, t.queue[0]) {
                        assert(!(t.stop_walk().1 is Store));
                    }
                }
            },
            _ => {},
        }
    }
}

/// The scan only asks about messages sent at or after the look-back
/// instant, and the message asked about is the one it then waits on.
pub proof fn lemma_check_only_in_window(s: ScanView, e: ScanEventView)
    requires
        s.wf(),
        s.step(e).1 is CheckSeen,
    ensures
        s.step(e).0.awaiting is Seen,
        s.step(e).1 == (ScanAction::CheckSeen { message_id: s.step(e).0.queue[0].id }),
        !too_old(s.step(e).0.lookback, s.step(e).0.queue[0]),
        s.step(e).0.lookback == s.lookback,
{
    lemma_step_keeps_wf(s, e);
    if !(s.phase is Done) {
        match (s.awaiting, e) {
            (Awaiting::Fetch, ScanEventView::Batch(b)) => {
                if s.phase is Older && b.len() > 0 {
                    let t = ScanView { before: b.last().id, queue: b, ..s };
                    if too_old(t.lookback, t.queue[0]) {
                        assert(!(t.stop_walk().1 is CheckSeen));
                    }
                }
            },
            (Awaiting::Fetch, ScanEventView::Next(m)) => {
                if s.phase is Newer && m is Some {
                    let t = ScanView { queue: seq![m->0], ..s };
                    if too_old(t.lookback, t.queue[0]) {
                        assert(!(t.stop_walk().1 is CheckSeen));
                    }
                }
            },
            (Awaiting::Seen, ScanEventView::Seen(seen)) => {
                if seen {
                    assert(!(s.stop_walk().1 is CheckSeen));
                }
            },
            (Awaiting::Stored, ScanEventView::Stored) => {
                let rest = s.queue.drop_first();
                if s.phase is Older && rest.len() > 0 {
                    let t = ScanView { queue: rest, ..s };
                    if too_old(t.lookback, t.queue[0]) {
                        assert(!(t.stop_walk().1 is CheckSeen));
                    }
                }
            },
            _ => {},
        }
    }
}

/// Every step keeps the scan's states well formed.
pub proof fn lemma_step_keeps_wf(s: ScanView, e: ScanEventView)
    requires
        s.wf(),
    ensures
        s.step(e).0.wf(),
{
    if !(s.phase is Done) {
        match (s.awaiting, e) {
            (Awaiting::Stored, ScanEventView::Stored) => {
                let rest = s.queue.drop_first();
                if s.phase is Older && rest.len() > 0 {
                    let t = ScanView { queue: rest, ..s };
                    assert(t.queue.len() > 0);
                }
            },
            _ => {},
        }
    }
}

/// A finished scan stays finished and asks for nothing more, whatever the
/// driver answers.
pub proof fn lemma_done_is_final(s: ScanView, e: ScanEventView)
    requires
        s.phase is Done,
    ensures
        s.step(e) == (s, ScanAction::Finish),
{
}

/// The scan never goes back to an earlier walk: the walk back, then the
/// walk from the newest message, then the end.
pub proof fn lemma_phase_only_advances(s: ScanView, e: ScanEventView)
    requires
        s.wf(),
    ensures
        phase_rank(s.step(e).0.phase) >= phase_rank(s.phase),
{
}

/// A message found stored already, or sent before the look-back instant,
/// ends the walk it was met in: the walk back gives way to the walk from
/// the newest message, which ends the channel.
pub proof fn lemma_known_or_old_message_ends_walk(s: ScanView)
    requires
        s.wf(),
        !(s.phase is Done),
        s.queue.len() > 0,
    ensures
        s.awaiting is Seen ==> s.step(ScanEventView::Seen(true)) == s.stop_walk(),
        too_old(s.lookback, s.queue[0]) ==> s.consider_front() == s.stop_walk(),
        s.phase is Older ==> s.stop_walk().1 == ScanAction::FetchNewer && s.stop_walk().0.phase is Newer,
        s.phase is Newer ==> s.stop_walk().1 == ScanAction::Finish && s.stop_walk().0.phase is Done,
{
}

/// With non-negative windows the look-back instant is not after `now`: it
/// is `now` moved back by both windows, in whole days.
pub proof fn lemma_lookback_before_now(now: Moment, threshold_days: int, buffer_days: int)
    requires
        now.wf(),
        threshold_days >= 0,
        buffer_days >= 0,
    ensures
        spec_lookback(now, threshold_days, buffer_days) matches Some(m) ==> {
            &&& !m.is_after(now)
            &&& m.secs == now.secs - 86400 * (threshold_days + buffer_days)
            &&& m.nanos == now.nanos
        },
{
}

/// A channel whose stored messages reach back before the look-back
/// instant is skipped; otherwise the walk back starts at its oldest stored
/// message, and a channel with none stored is walked from its newest.
pub proof fn lemma_start(lookback: Moment, oldest: Option<StoredMessage>)
    ensures
        spec_start(lookback, oldest).0.wf(),
        spec_start(lookback, oldest).1 == ScanAction::Finish
            <==> (oldest matches Some(o) && lookback.is_after(o.created)),
        oldest is None ==> spec_start(lookback, oldest).1 == ScanAction::FetchNewer,
        (oldest matches Some(o) && !lookback.is_after(o.created))
            ==> spec_start(lookback, oldest).1 == (ScanAction::FetchOlder { before: oldest->0.id as u64 }),
{
}

/// The scan driven through a sequence of answers: the final state and the
/// actions asked for, one per answer.
pub open spec fn run(s: ScanView, events: Seq<ScanEventView>) -> (ScanView, Seq<ScanAction>)
    decreases events.len(),
{
    if events.len() == 0 {
        (s, Seq::empty())
    } else {
        let (s1, a) = s.step(events[0]);
        let (f, rest) = run(s1, events.drop_first());
        (f, seq![a] + rest)
    }
}

/// The driver's answers for `n` messages that are each found not stored
/// and then stored.
pub open spec fn confirmations(n: nat) -> Seq<ScanEventView>
    decreases n,
{
    if n == 0 {
        Seq::empty()
    } else {
        seq![ScanEventView::Seen(false), ScanEventView::Stored] + confirmations((n - 1) as nat)
    }
}

/// The actions while every message of `q` is stored in turn: store each,
/// ask about the next, and after the last ask for the batch before
/// `before`.
pub open spec fn storing_actions(q: Seq<Stamp>, before: u64) -> Seq<ScanAction>
    decreases q.len(),
{
    if q.len() <= 1 {
        if q.len() == 0 {
            seq![ScanAction::FetchOlder { before }]
        } else {
            seq![ScanAction::Store { message_id: q[0].id }, ScanAction::FetchOlder { before }]
        }
    } else {
        seq![ScanAction::Store { message_id: q[0].id }, ScanAction::CheckSeen { message_id: q[1].id }]
            + storing_actions(q.drop_first(), before)
    }
}

/// In the walk back, once the scan asks about the first message of a batch
/// whose messages are all within the window and none stored yet, every one
/// of them is stored in order, and then the batch before it is asked for.
pub proof fn lemma_fresh_queue_fully_stored(s: ScanView)
    requires
        s.wf(),
        s.phase is Older,
        s.awaiting is Seen,
        forall|i: int| 0 <= i < s.queue.len() ==> !too_old(s.lookback, #[trigger] s.queue[i]),
    ensures
        run(s, confirmations(s.queue.len())).1 == storing_actions(s.queue, s.before),
        run(s, confirmations(s.queue.len())).0 == (ScanView { queue: Seq::empty(), awaiting: Awaiting::Fetch, ..s }),
    decreases s.queue.len(),
{
    let n = s.queue.len();
    let ev = confirmations(n);
    assert(ev[0] == ScanEventView::Seen(false));
    let (s1, a1) = s.step(ScanEventView::Seen(false));
    assert(a1 == ScanAction::Store { message_id: s.queue[0].id });
    let ev1 = ev.drop_first();
    assert(ev1[0] == ScanEventView::Stored);
    let ev2 = ev1.drop_first();
    assert(ev2 =~= confirmations((n - 1) as nat));
    let (s2, a2) = s1.step(ScanEventView::Stored);
    let rest = s.queue.drop_first();
    if rest.len() == 0 {
        assert(s2 == ScanView { queue: rest, awaiting: Awaiting::Fetch, ..s });
        assert(rest =~= Seq::<Stamp>::empty());
        assert(run(s2, ev2) == (s2, Seq::<ScanAction>::empty()));
        assert(run(s1, ev1).1 =~= seq![a2]);
        assert(run(s, ev).1 =~= storing_actions(s.queue, s.before));
    } else {
        let t = ScanView { queue: rest, awaiting: Awaiting::Seen, ..s };
        assert(!too_old(s.lookback, rest[0])) by {
            assert(rest[0] == s.queue[1]);
        }
        assert(s2 == t);
        assert(a2 == ScanAction::CheckSeen { message_id: s.queue[1].id });
        assert forall|i: int| 0 <= i < t.queue.len() implies !too_old(t.lookback, #[trigger] t.queue[i]) by {
            assert(t.queue[i] == s.queue[i + 1]);
        }
        lemma_fresh_queue_fully_stored(t);
        assert(run(s1, ev1).1 =~= seq![a2] + run(t, ev2).1);
        assert(run(s, ev).1 =~= seq![a1] + (seq![a2] + storing_actions(rest, s.before)));
        assert(run(s, ev).1 =~= storing_actions(s.queue, s.before));
    }
}

/// A batch of the walk back whose messages are all within the window and
/// none stored yet is stored whole, in order, and the walk then asks for
/// the messages before the batch's oldest (its last) message.
pub proof fn lemma_fresh_batch_fully_stored(s: ScanView, b: Seq<Stamp>)
    requires
        s.wf(),
        s.phase is Older,
        s.awaiting is Fetch,
        b.len() > 0,
        forall|i: int| 0 <= i < b.len() ==> !too_old(s.lookback, #[trigger] b[i]),
    ensures
        run(s, seq![ScanEventView::Batch(b)] + confirmations(b.len())).1
            == seq![ScanAction::CheckSeen { message_id: b[0].id }] + storing_actions(b, b.last().id),
        run(s, seq![ScanEventView::Batch(b)] + confirmations(b.len())).0
            == (ScanView { before: b.last().id, queue: Seq::empty(), awaiting: Awaiting::Fetch, ..s }),
{
    let ev = seq![ScanEventView::Batch(b)] + confirmations(b.len());
    assert(ev[0] == ScanEventView::Batch(b));
    assert(ev.drop_first() =~= confirmations(b.len()));
    let t = ScanView { before: b.last().id, queue: b, awaiting: Awaiting::Seen, ..s };
    assert(s.step(ScanEventView::Batch(b)) == (t, ScanAction::CheckSeen { message_id: b[0].id }));
    lemma_fresh_queue_fully_stored(t);
}

/// The walk back moves back: when the batch's messages have ids below the
/// one asked before (as Discord's ids grow with time), the next batch is
/// asked before a smaller id.
pub proof fn lemma_walk_back_bound_decreases(s: ScanView, b: Seq<Stamp>)
    requires
        s.phase is Older,
        s.awaiting is Fetch,
        b.len() > 0,
        forall|i: int| 0 <= i < b.len() ==> #[trigger] b[i].id < s.before,
    ensures
        s.step(ScanEventView::Batch(b)).0.before < s.before,
{
    assert(b.last() == b[b.len() - 1]);
}

} // verus!
