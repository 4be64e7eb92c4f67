//! The report of users who are about to be timed out: every non-bot user
//! whose latest activity is not within the guild's inactivity window, the
//! earliest active first, then the members that never were active.

use vstd::prelude::*;
use vstd::string::*;
use vstd::utf8::is_ascii_chars;
use crate::activity::{LastUserActivity, activity_ok, later, sort_by_last_activity, sorted_by_latest, lemma_sorted_by_latest_permutes};
use crate::text::{decimal, signed_decimal, push_decimal, push_signed_decimal, lemma_decimal_ascii, lemma_signed_decimal_ascii, lemma_ascii_concat};
use crate::time::{Moment, secs_in_range, spec_days_before, days_before, timestamp_debug, timestamp_debug_text, utc_now, lemma_days_before_defined, MAX_SPAN_DAYS_FROM_EPOCH};

verus! {

broadcast use vstd::seq_lib::group_to_multiset_ensures;

/// The report is cut after this many bytes.
pub const REPORT_LIMIT: usize = 1000;

/// A member of the guild as the report needs it.
#[derive(Clone, Copy, Debug, PartialEq, Eq, Structural)]
pub struct Member {
    pub user_id: u64,
    pub is_bot: bool,
}

/// `<@id> - `: a mention of the user and the separator.
pub open spec fn mention(id: u64) -> Seq<char> {
    seq!['<', '@'] + decimal(id as nat) + seq!['>', ' ', '-', ' ']
}

/// What `{:?}` prints for the latest activity (an `Option<Timestamp>`).
pub open spec fn debug_latest(t: Option<i64>) -> Seq<char> {
    match t {
        None => seq!['N', 'o', 'n', 'e'],
        Some(s) => seq!['S', 'o', 'm', 'e', '('] + timestamp_debug_text(s) + seq![')'],
    }
}

/// The line for a user whose latest activity is known.
pub open spec fn activity_line(a: LastUserActivity) -> Seq<char> {
    mention(a.user_id) + debug_latest(a.latest()) + seq!['\n']
}

/// The line for a member of whom no activity is known.
pub open spec fn member_line(id: u64, days: i64) -> Seq<char> {
    mention(id) + seq!['b', 'e', 'f', 'o', 'r', 'e', ' '] + signed_decimal(days as int)
        + seq![' ', 'd', 'a', 'y', 's', '\n']
}

/// Whether the user's latest activity is strictly after the cutoff
/// (activity instants are whole seconds).
pub open spec fn active_since(a: LastUserActivity, cutoff: Moment) -> bool {
    a.latest() matches Some(t) && (Moment { secs: t, nanos: 0 }).is_after(cutoff)
}

/// Whether the comparison with the cutoff has to be made for this user.
pub open spec fn needs_cutoff(a: LastUserActivity) -> bool {
    !a.is_bot && a.latest() is Some
}

/// Whether the user is reported: not a bot, and not active after the
/// cutoff.
pub open spec fn is_reported(a: LastUserActivity, cutoff: Option<Moment>) -> bool {
    &&& !a.is_bot
    &&& !(cutoff matches Some(c) && active_since(a, c))
}

/// The lines of the reported users of `s`, in the order of `s`.
pub open spec fn activity_text(s: Seq<LastUserActivity>, cutoff: Option<Moment>) -> Seq<char>
    decreases s.len(),
{
    if s.len() == 0 {
        Seq::empty()
    } else {
        activity_text(s.drop_last(), cutoff)
            + if is_reported(s.last(), cutoff) { activity_line(s.last()) } else { Seq::empty() }
    }
}

/// The bot flag of the last entry of `ms` for user `id` (a later entry
/// overrides an earlier one, as when members are collected into a map).
pub open spec fn last_bot_flag(ms: Seq<Member>, id: u64) -> bool
    decreases ms.len(),
{
    if ms.len() == 0 {
        false
    } else if ms.last().user_id == id {
        ms.last().is_bot
    } else {
        last_bot_flag(ms.drop_last(), id)
    }
}

/// Whether entry `i` is the first entry of `ms` for its user.
pub open spec fn first_occurrence(ms: Seq<Member>, i: int) -> bool {
    forall|j: int| 0 <= j < i ==> ms[j].user_id != ms[i].user_id
}

/// Whether some activity entry is about user `id`.
pub open spec fn has_activity(acts: Seq<LastUserActivity>, id: u64) -> bool {
    exists|i: int| 0 <= i < acts.len() && acts[i].user_id == id
}

/// Whether the member at position `i` gets a line of its own: it is the
/// first entry of its user, no activity of the user is known, and the user
/// is no bot.
pub open spec fn member_reported(ms: Seq<Member>, i: int, acts: Seq<LastUserActivity>) -> bool {
    &&& first_occurrence(ms, i)
    &&& !has_activity(acts, ms[i].user_id)
    &&& !last_bot_flag(ms, ms[i].user_id)
}

/// The lines of the members among the first `n` entries of `ms` that get
/// one, in the order of their first entry.
pub open spec fn member_text(ms: Seq<Member>, n: int, acts: Seq<LastUserActivity>, days: i64) -> Seq<char>
    decreases n,
{
    if n <= 0 {
        Seq::empty()
    } else {
        member_text(ms, n - 1, acts, days)
            + if member_reported(ms, n - 1, acts) { member_line(ms[n - 1].user_id, days) } else { Seq::empty() }
    }
}

/// What is appended to a report that was cut.
pub open spec fn cut_marker() -> Seq<char> {
    seq!['\n', '.', '.', '.', 'a', 'n', 'd', ' ', 'm', 'o', 'r', 'e']
}

/// The report cut to its first `REPORT_LIMIT` characters (all ASCII, so
/// bytes) when longer, with the marker appended.
pub open spec fn limited(t: Seq<char>) -> Seq<char> {
    if t.len() > REPORT_LIMIT {
        t.take(REPORT_LIMIT as int) + cut_marker()
    } else {
        t
    }
}

/// The report for the given members and activity, with the inactivity
/// window of `days` days before `now`; `None` where computing the start of
/// the window overflows and some user needs it (the bot panics there).
pub open spec fn report_for(members: Seq<Member>, acts: Seq<LastUserActivity>, days: i64, now: Moment) -> Option<Seq<char>> {
    let cutoff = spec_days_before(now, days as int);
    if cutoff is None && exists|i: int| 0 <= i < acts.len() && needs_cutoff(#[trigger] acts[i]) {
        None
    } else {
        Some(limited(
            activity_text(sorted_by_latest(acts), cutoff)
                + member_text(members, members.len() as int, acts, days),
        ))
    }
}

/// Appends `<@id> - `.
fn push_mention(s: &mut String, id: u64)
    ensures
        final(s)@ == old(s)@ + mention(id),
{
    proof {
        reveal_strlit("<@");
        reveal_strlit("> - ");
    }
    s.append("<@");
    push_decimal(s, id);
    s.append("> - ");
    assert("<@"@ =~= seq!['<', '@']);
    assert("> - "@ =~= seq!['>', ' ', '-', ' ']);
    assert(final(s)@ =~= old(s)@ + mention(id));
}

/// Appends the line of a reported user.
fn push_activity_line(s: &mut String, a: &LastUserActivity)
    requires
        activity_ok(*a),
        is_ascii_chars(old(s)@),
    ensures
        final(s)@ == old(s)@ + activity_line(*a),
        is_ascii_chars(final(s)@),
{
    proof {
        reveal_strlit("None");
        reveal_strlit("Some(");
        reveal_strlit(")");
        reveal_strlit("\n");
        lemma_decimal_ascii(a.user_id as nat);
    }
    let ghost s0 = s@;
    push_mention(s, a.user_id);
    let ghost s1 = s@;
    match a.last_activity() {
        None => {
            s.append("None");
            assert("None"@ =~= seq!['N', 'o', 'n', 'e']);
        },
        Some(t) => {
            s.append("Some(");
            let text = timestamp_debug(t);
            s.append(text.as_str());
            s.append(")");
            assert("Some("@ =~= seq!['S', 'o', 'm', 'e', '(']);
            assert(")"@ =~= seq![')']);
            assert(s@ =~= s1 + debug_latest(a.latest()));
            assert(is_ascii_chars(debug_latest(a.latest()))) by {
                let d = debug_latest(a.latest());
                assert forall|i| 0 <= i < d.len() implies '\0' <= #[trigger] d[i] <= '\u{7f}' by {
                    if 5 <= i < d.len() - 1 {
                        assert(d[i] == text@[i - 5]);
                    }
                }
            }
        },
    }
    s.append("\n");
    assert("\n"@ =~= seq!['\n']);
    assert(s@ =~= s0 + activity_line(*a));
    proof {
        lemma_ascii_concat(s0, activity_line(*a));
        let l = activity_line(*a);
        let m = mention(a.user_id);
        let d = decimal(a.user_id as nat);
        let dl = debug_latest(a.latest());
        assert(is_ascii_chars(l)) by {
            assert forall|i| 0 <= i < l.len() implies '\0' <= #[trigger] l[i] <= '\u{7f}' by {
                if i < m.len() {
                    assert(l[i] == m[i]);
                    if 2 <= i < 2 + d.len() {
                        assert(m[i] == d[i - 2]);
                    }
                } else if i < m.len() + dl.len() {
                    assert(l[i] == dl[i - m.len()]);
                    if a.latest() is None {
                        assert(dl =~= seq!['N', 'o', 'n', 'e']);
                    }
                }
            }
        }
        lemma_ascii_concat(s0, l);
    }
}

/// Appends the line of a member of whom no activity is known.
fn push_member_line(s: &mut String, id: u64, days: i64)
    requires
        is_ascii_chars(old(s)@),
    ensures
        final(s)@ == old(s)@ + member_line(id, days),
        is_ascii_chars(final(s)@),
{
    proof {
        reveal_strlit("before ");
        reveal_strlit(" days\n");
        lemma_decimal_ascii(id as nat);
        lemma_signed_decimal_ascii(days as int);
    }
    let ghost s0 = s@;
    push_mention(s, id);
    s.append("before ");
    push_signed_decimal(s, days);
    s.append(" days\n");
    assert("before "@ =~= seq!['b', 'e', 'f', 'o', 'r', 'e', ' ']);
    assert(" days\n"@ =~= seq![' ', 'd', 'a', 'y', 's', '\n']);
    assert(s@ =~= s0 + member_line(id, days));
    proof {
        let l = member_line(id, days);
        let m = mention(id);
        let d = decimal(id as nat);
        let sd = signed_decimal(days as int);
        assert(is_ascii_chars(l)) by {
            assert forall|i| 0 <= i < l.len() implies '\0' <= #[trigger] l[i] <= '\u{7f}' by {
                if i < m.len() {
                    assert(l[i] == m[i]);
                    if 2 <= i < 2 + d.len() {
                        assert(m[i] == d[i - 2]);
                    }
                } else if m.len() + 7 <= i < m.len() + 7 + sd.len() {
                    assert(l[i] == sd[i - m.len() - 7]);
                }
            }
        }
        lemma_ascii_concat(s0, l);
    }
}

/// Whether entry `i` of `ms` is not the first entry of its user.
fn seen_earlier(ms: &Vec<Member>, i: usize) -> (r: bool)
    requires
        i < ms.len(),
    ensures
        r == !first_occurrence(ms@, i as int),
{
    let id: u64 = ms[i].user_id;
    let mut j: usize = 0;
    while j < i
        invariant
            j <= i < ms.len(),
            id == ms@[i as int].user_id,
            forall|k: int| 0 <= k < j ==> ms@[k].user_id != id,
        decreases i - j,
    {
        if ms[j].user_id == id {
            return true;
        }
        j = j + 1;
    }
    false
}

/// The bot flag of the last entry of `ms` for user `id`.
fn bot_flag_of(ms: &Vec<Member>, id: u64) -> (r: bool)
    ensures
        r == last_bot_flag(ms@, id),
{
    let mut k: usize = ms.len();
    assert(ms@.take(k as int) =~= ms@);
    while k > 0
        invariant
            k <= ms.len(),
            last_bot_flag(ms@, id) == last_bot_flag(ms@.take(k as int), id),
        decreases k,
    {
        assert(ms@.take(k as int).drop_last() =~= ms@.take(k as int - 1));
        assert(ms@.take(k as int).last() == ms@[k as int - 1]);
        if ms[k - 1].user_id == id {
            return ms[k - 1].is_bot;
        }
        k = k - 1;
    }
    false
}

/// Whether some activity entry is about user `id`.
fn activity_known(acts: &Vec<LastUserActivity>, id: u64) -> (r: bool)
    ensures
        r == has_activity(acts@, id),
{
    let mut j: usize = 0;
    while j < acts.len()
        invariant
            j <= acts.len(),
            forall|k: int| 0 <= k < j ==> acts@[k].user_id != id,
        decreases acts.len() - j,
    {
        if acts[j].user_id == id {
            return true;
        }
        j = j + 1;
    }
    false
}

/// A copy of the entries.
fn copy_activities(v: &Vec<LastUserActivity>) -> (r: Vec<LastUserActivity>)
    ensures
        r@ == v@,
{
    let mut r: Vec<LastUserActivity> = Vec::new();
    let mut i: usize = 0;
    while i < v.len()
        invariant
            i <= v.len(),
            r@ == v@.take(i as int),
        decreases v.len() - i,
    {
        r.push(v[i]);
        i = i + 1;
        assert(r@ =~= v@.take(i as int));
    }
    assert(v@.take(v.len() as int) =~= v@);
    r
}

/// Builds the timeout report at instant `now`: the users whose latest
/// activity is not after `now` minus `threshold_days` days, earliest first
/// (`<@id> - Some(Timestamp(..))`), then the non-bot members of whom no
/// activity is known (`<@id> - before N days`), cut after
/// `REPORT_LIMIT` bytes with `\n...and more` appended. `None` where the
/// start of the window cannot be computed and some user needs it.
pub fn timeout_report_at(members: &Vec<Member>, activities: &Vec<LastUserActivity>, threshold_days: i64, now: Moment) -> (r: Option<String>)
    requires
        now.wf(),
        forall|i: int| 0 <= i < activities.len() ==> activity_ok(#[trigger] activities@[i]),
    ensures
        match r {
            Some(s) => report_for(members@, activities@, threshold_days, now) == Some(s@),
            None => report_for(members@, activities@, threshold_days, now) is None,
        },
        r matches Some(s) ==> is_ascii_chars(s@),
{
    let mut sorted = copy_activities(activities);
    sort_by_last_activity(&mut sorted);
    let ghost sorted_view = sorted_by_latest(activities@);
    proof {
        lemma_sorted_by_latest_permutes(activities@);
        assert forall|i: int| 0 <= i < sorted.len() implies activity_ok(#[trigger] sorted@[i]) by {
            assert(sorted@.to_multiset().count(sorted@[i]) > 0);
            assert(activities@.to_multiset().count(sorted@[i]) > 0);
            assert(activities@.contains(sorted@[i]));
        }
    }
    let cutoff = days_before(now, threshold_days);
    let mut text = String::new();
    let mut i: usize = 0;
    while i < sorted.len()
        invariant
            i <= sorted.len(),
            sorted@ == sorted_view,
            sorted_view == sorted_by_latest(activities@),
            sorted_view.to_multiset() == activities@.to_multiset(),
            forall|k: int| 0 <= k < sorted.len() ==> activity_ok(#[trigger] sorted@[k]),
            cutoff == spec_days_before(now, threshold_days as int),
            cutoff is None ==> forall|k: int| 0 <= k < i ==> !needs_cutoff(#[trigger] sorted@[k]),
            text@ == activity_text(sorted@.take(i as int), cutoff),
            is_ascii_chars(text@),
        decreases sorted.len() - i,
    {
        let a = sorted[i];
        assert(sorted@.take(i as int + 1).drop_last() =~= sorted@.take(i as int));
        assert(sorted@.take(i as int + 1).last() == a);
        if !a.is_bot {
            let mut report = true;
            match a.last_activity() {
                Some(t) => match cutoff {
                    None => {
                        proof {
                            assert(needs_cutoff(sorted@[i as int]));
                            assert(sorted_view.to_multiset().count(a) > 0);
                            assert(activities@.contains(a));
                            let j = choose|j: int| 0 <= j < activities.len() && activities@[j] == a;
                            assert(needs_cutoff(activities@[j]));
                        }
                        return None;
                    },
                    Some(c) => {
                        if Moment::whole_second(t).after(&c) {
                            report = false;
                        }
                    },
                },
                None => {},
            }
            if report {
                push_activity_line(&mut text, &a);
            }
        }
        i = i + 1;
    }
    assert(sorted@.take(sorted.len() as int) =~= sorted@);
    proof {
        if cutoff is None {
            assert forall|j: int| 0 <= j < activities.len() implies !needs_cutoff(#[trigger] activities@[j]) by {
                assert(activities@.to_multiset().count(activities@[j]) > 0);
                assert(sorted@.contains(activities@[j]));
            }
        }
    }
    let mut m: usize = 0;
    while m < members.len()
        invariant
            m <= members.len(),
            text@ == activity_text(sorted_view, cutoff) + member_text(members@, m as int, activities@, threshold_days),
            is_ascii_chars(text@),
        decreases members.len() - m,
    {
        let member = members[m];
        if !seen_earlier(members, m) && !activity_known(activities, member.user_id) && !bot_flag_of(members, member.user_id) {
            push_member_line(&mut text, member.user_id, threshold_days);
        }
        m = m + 1;
    }
    proof {
        assert(!(cutoff is None && exists|i: int| 0 <= i < activities.len() && needs_cutoff(#[trigger] activities@[i])));
        assert(report_for(members@, activities@, threshold_days, now) == Some(limited(text@)));
    }
    // The text is ASCII, so its length in characters is its length in bytes.
    let byte_len = text.as_str().unicode_len();
    if byte_len > REPORT_LIMIT {
        let head = text.as_str().substring_ascii(0, REPORT_LIMIT);
        let mut cut = head.to_owned();
        proof {
            reveal_strlit("\n...and more");
        }
        cut.append("\n...and more");
        assert("\n...and more"@ =~= cut_marker());
        assert(head@ =~= text@.take(REPORT_LIMIT as int));
        assert(cut@ =~= limited(text@));
        proof {
            assert forall|i| 0 <= i < cut@.len() implies '\0' <= #[trigger] cut@[i] <= '\u{7f}' by {
                if i < REPORT_LIMIT {
                    assert(cut@[i] == text@[i]);
                }
            }
        }
        Some(cut)
    } else {
        Some(text)
    }
}

/// Builds the timeout report as `timeout_report_at` does, at the present
/// instant read from the clock (never before the epoch). A window of
/// 0 to `MAX_SPAN_DAYS_FROM_EPOCH` days always gives a report.
pub fn timeout_report(members: &Vec<Member>, activities: &Vec<LastUserActivity>, threshold_days: i64) -> (r: Option<String>)
    requires
        forall|i: int| 0 <= i < activities.len() ==> activity_ok(#[trigger] activities@[i]),
    ensures
        exists|now: Moment| #![auto] now.wf() && now.secs >= 0 && match r {
            Some(s) => report_for(members@, activities@, threshold_days, now) == Some(s@),
            None => report_for(members@, activities@, threshold_days, now) is None,
        },
        0 <= threshold_days <= MAX_SPAN_DAYS_FROM_EPOCH ==> r is Some,
        r matches Some(s) ==> is_ascii_chars(s@),
{
    let now = utc_now();
    proof {
        if 0 <= threshold_days <= MAX_SPAN_DAYS_FROM_EPOCH {
            lemma_days_before_defined(now, threshold_days as int);
        }
    }
    let r = timeout_report_at(members, activities, threshold_days, now);
    assert(now.wf());
    r
}

/// A longer window lists a subset of the users: whoever gets a line with a
/// window of `d2` days gets one with a window of `d1 <= d2` days, at the
/// same instant. (The members' "before" lines do not depend on the window.)
pub proof fn lemma_longer_window_reports_fewer(a: LastUserActivity, now: Moment, d1: int, d2: int)
    requires
        now.wf(),
        d1 <= d2,
        spec_days_before(now, d1) is Some,
        spec_days_before(now, d2) is Some,
    ensures
        is_reported(a, spec_days_before(now, d2)) ==> is_reported(a, spec_days_before(now, d1)),
{
    let c1 = spec_days_before(now, d1)->0;
    let c2 = spec_days_before(now, d2)->0;
    assert(d1 * 86400 <= d2 * 86400) by (nonlinear_arith)
        requires
            d1 <= d2,
    ;
    assert(c2.secs <= c1.secs);
    assert(c2.nanos == c1.nanos);
}

/// The same, for every entry of a sequence at once.
pub proof fn lemma_longer_window_reports_subset(s: Seq<LastUserActivity>, now: Moment, d1: int, d2: int)
    requires
        now.wf(),
        d1 <= d2,
        spec_days_before(now, d1) is Some,
        spec_days_before(now, d2) is Some,
    ensures
        forall|i: int| 0 <= i < s.len() && #[trigger] is_reported(s[i], spec_days_before(now, d2))
            ==> is_reported(s[i], spec_days_before(now, d1)),
{
    assert forall|i: int| 0 <= i < s.len() && #[trigger] is_reported(s[i], spec_days_before(now, d2))
        implies is_reported(s[i], spec_days_before(now, d1)) by {
        lemma_longer_window_reports_fewer(s[i], now, d1, d2);
    }
}

/// A report no longer than the limit is sent whole; a longer one keeps its
/// first `REPORT_LIMIT` characters and ends with the marker, so a report
/// never exceeds the limit by more than the marker.
pub proof fn lemma_limited_report(t: Seq<char>)
    ensures
        t.len() <= REPORT_LIMIT ==> limited(t) == t,
        t.len() > REPORT_LIMIT ==> {
            &&& limited(t).take(REPORT_LIMIT as int) == t.take(REPORT_LIMIT as int)
            &&& limited(t).skip(REPORT_LIMIT as int) == cut_marker()
        },
        limited(t).len() <= REPORT_LIMIT + cut_marker().len(),
{
    if t.len() > REPORT_LIMIT {
        assert(limited(t).take(REPORT_LIMIT as int) =~= t.take(REPORT_LIMIT as int));
        assert(limited(t).skip(REPORT_LIMIT as int) =~= cut_marker());
    }
}

/// Bots, and users active after the cutoff, get no line.
pub proof fn lemma_active_users_not_reported(s: Seq<LastUserActivity>, cutoff: Moment)
    requires
        forall|i: int| 0 <= i < s.len() ==> #[trigger] s[i].is_bot || active_since(s[i], cutoff),
    ensures
        activity_text(s, Some(cutoff)) == Seq::<char>::empty(),
    decreases s.len(),
{
    if s.len() > 0 {
        assert forall|i: int| 0 <= i < s.drop_last().len() implies #[trigger] s.drop_last()[i].is_bot || active_since(s.drop_last()[i], cutoff) by {
            assert(s.drop_last()[i] == s[i]);
        }
        lemma_active_users_not_reported(s.drop_last(), cutoff);
        assert(s.last() == s[s.len() - 1]);
    }
}

/// Every reported user has a line of its own: the text of a sequence grows
/// by the line of each reported entry, in order.
pub proof fn lemma_reported_user_has_line(s: Seq<LastUserActivity>, a: LastUserActivity, cutoff: Option<Moment>)
    ensures
        is_reported(a, cutoff) ==> activity_text(s.push(a), cutoff) == activity_text(s, cutoff) + activity_line(a),
        !is_reported(a, cutoff) ==> activity_text(s.push(a), cutoff) == activity_text(s, cutoff),
{
    assert(s.push(a).drop_last() =~= s);
    assert(s.push(a).last() == a);
    if !is_reported(a, cutoff) {
        assert(activity_text(s, cutoff) + Seq::<char>::empty() =~= activity_text(s, cutoff));
    }
}

/// A user's line names the user and shows the later of its last message
/// and last reaction.
pub proof fn lemma_activity_line_shows_latest(a: LastUserActivity)
    ensures
        activity_line(a) == mention(a.user_id) + debug_latest(later(a.last_message_timestamp, a.last_reaction_timestamp)) + seq!['\n'],
        mention(a.user_id) == seq!['<', '@'] + decimal(a.user_id as nat) + seq!['>', ' ', '-', ' '],
{
}

/// Whether the instant `t` (whole unix seconds) is strictly after the
/// cutoff, read off the seconds alone.
pub open spec fn second_after(t: i64, cutoff: Moment) -> bool {
    t > cutoff.secs
}

/// Which users get a line, in terms of their raw timestamps: a bot never;
/// a user who posted or reacted strictly after the cutoff never; any other
/// user always.
pub proof fn lemma_reported_iff_no_recent_activity(a: LastUserActivity, cutoff: Moment)
    requires
        cutoff.wf(),
    ensures
        is_reported(a, Some(cutoff)) <==> {
            &&& !a.is_bot
            &&& !(a.last_message_timestamp matches Some(t) && second_after(t, cutoff))
            &&& !(a.last_reaction_timestamp matches Some(t) && second_after(t, cutoff))
        },
        (a.last_reaction_timestamp matches Some(t) && (Moment { secs: t, nanos: 0 }).is_after(cutoff))
            ==> !is_reported(a, Some(cutoff)),
        (a.last_message_timestamp matches Some(t) && (Moment { secs: t, nanos: 0 }).is_after(cutoff))
            ==> !is_reported(a, Some(cutoff)),
{
}

/// A user who posted or reacted after the cutoff, or a bot, adds nothing to
/// the text; any other user adds its own line.
pub proof fn lemma_recent_user_adds_no_line(s: Seq<LastUserActivity>, a: LastUserActivity, cutoff: Moment)
    requires
        cutoff.wf(),
    ensures
        (a.is_bot
            || (a.last_message_timestamp matches Some(t) && second_after(t, cutoff))
            || (a.last_reaction_timestamp matches Some(t) && second_after(t, cutoff)))
            ==> activity_text(s.push(a), Some(cutoff)) == activity_text(s, Some(cutoff)),
        !(a.is_bot
            || (a.last_message_timestamp matches Some(t) && second_after(t, cutoff))
            || (a.last_reaction_timestamp matches Some(t) && second_after(t, cutoff)))
            ==> activity_text(s.push(a), Some(cutoff)).len() > activity_text(s, Some(cutoff)).len(),
{
    lemma_reported_iff_no_recent_activity(a, cutoff);
    lemma_reported_user_has_line(s, a, Some(cutoff));
}

/// A member gets a "before" line only when no activity of it is known and
/// its last entry says it is no bot; of several entries of one user, only
/// the first can.
pub proof fn lemma_member_line_conditions(ms: Seq<Member>, i: int, j: int, acts: Seq<LastUserActivity>)
    requires
        0 <= i < j < ms.len(),
        ms[i].user_id == ms[j].user_id,
    ensures
        !member_reported(ms, j, acts),
        member_reported(ms, i, acts) ==> !has_activity(acts, ms[i].user_id) && !last_bot_flag(ms, ms[i].user_id),
{
}

} // verus!
