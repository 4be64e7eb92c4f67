//! Last recorded activity of each user of a guild: merging the rows that
//! the database gives back, and ordering users by how recently they were
//! active.

use vstd::prelude::*;
use crate::time::{secs_in_range, spec_timestamp_from_unix, unix_timestamp_checked};

verus! {

broadcast use vstd::seq_lib::group_to_multiset_ensures;

/// One row of the per-user aggregation over messages or reactions: the
/// author's id, the latest timestamp (unix seconds) and whether the author
/// is a bot, each absent where the query found no value.
#[derive(Clone, Copy, Debug, PartialEq, Eq, Structural)]
pub struct ActivityRow {
    pub user_id: Option<i64>,
    pub last_timestamp: Option<i64>,
    pub is_bot: Option<bool>,
}

/// What is known of a user's latest activity: the latest message (edited
/// or created) and the latest reaction, in unix seconds.
#[derive(Clone, Copy, Debug, PartialEq, Eq, Structural)]
pub struct LastUserActivity {
    pub user_id: u64,
    pub is_bot: bool,
    pub last_message_timestamp: Option<i64>,
    pub last_reaction_timestamp: Option<i64>,
}

/// The later of two optional instants, where any instant is later than
/// none (the order of `Option<Timestamp>`).
pub open spec fn later(a: Option<i64>, b: Option<i64>) -> Option<i64> {
    match (a, b) {
        (None, _) => b,
        (_, None) => a,
        (Some(x), Some(y)) => Some(if x >= y { x } else { y }),
    }
}

/// The order of `Option<Timestamp>`: no instant comes first, then instants
/// in chronological order.
pub open spec fn key_le(a: Option<i64>, b: Option<i64>) -> bool {
    match (a, b) {
        (None, _) => true,
        (Some(_), None) => false,
        (Some(x), Some(y)) => x <= y,
    }
}

impl LastUserActivity {
    /// The user's latest activity of either kind.
    pub open spec fn latest(self) -> Option<i64> {
        later(self.last_message_timestamp, self.last_reaction_timestamp)
    }

    /// The user's latest activity of either kind.
    pub fn last_activity(&self) -> (r: Option<i64>)
        ensures
            r == self.latest(),
    {
        match (self.last_message_timestamp, self.last_reaction_timestamp) {
            (None, b) => b,
            (a, None) => a,
            (Some(x), Some(y)) => Some(if x >= y { x } else { y }),
        }
    }
}

/// Whether `key_le(a, b)` holds.
pub fn key_leq(a: Option<i64>, b: Option<i64>) -> (r: bool)
    ensures
        r == key_le(a, b),
{
    match (a, b) {
        (None, _) => true,
        (Some(_), None) => false,
        (Some(x), Some(y)) => x <= y,
    }
}

/// A row names a user: it has both an id and a bot flag. Other rows are
/// skipped.
pub open spec fn row_counts(r: ActivityRow) -> bool {
    r.user_id is Some && r.is_bot is Some
}

/// A row that names a user has a non-zero id (serenity's `UserId::from`
/// panics on zero) and a timestamp that serenity's `Timestamp` can hold
/// (the conversion is unwrapped).
pub open spec fn row_ok(r: ActivityRow) -> bool {
    row_counts(r) ==> {
        &&& r.user_id->0 != 0
        &&& (r.last_timestamp matches Some(t) ==> secs_in_range(t as int))
    }
}

/// An activity entry whose instants serenity's `Timestamp` can hold.
pub open spec fn activity_ok(a: LastUserActivity) -> bool {
    &&& (a.last_message_timestamp matches Some(t) ==> secs_in_range(t as int))
    &&& (a.last_reaction_timestamp matches Some(t) ==> secs_in_range(t as int))
}

/// The entry a user gets before any row has set it.
pub open spec fn blank_activity(id: u64) -> LastUserActivity {
    LastUserActivity {
        user_id: id,
        is_bot: false,
        last_message_timestamp: None,
        last_reaction_timestamp: None,
    }
}

/// The entry of user `id` in `m`, or a blank one.
pub open spec fn entry_of(m: Map<u64, LastUserActivity>, id: u64) -> LastUserActivity {
    if m.contains_key(id) { m[id] } else { blank_activity(id) }
}

/// `m` after one row: a row that names a user sets that user's id, bot flag
/// and, for message rows, the latest message or, for reaction rows, the
/// latest reaction; the other field keeps what it had.
pub open spec fn apply_row(m: Map<u64, LastUserActivity>, r: ActivityRow, reaction: bool) -> Map<u64, LastUserActivity> {
    if row_counts(r) {
        let id: u64 = r.user_id->0 as u64;
        let e = entry_of(m, id);
        let e2 = if reaction {
            LastUserActivity { user_id: id, is_bot: r.is_bot->0, last_reaction_timestamp: r.last_timestamp, ..e }
        } else {
            LastUserActivity { user_id: id, is_bot: r.is_bot->0, last_message_timestamp: r.last_timestamp, ..e }
        };
        m.insert(id, e2)
    } else {
        m
    }
}

/// `m` after the rows in order.
pub open spec fn apply_rows(m: Map<u64, LastUserActivity>, rows: Seq<ActivityRow>, reaction: bool) -> Map<u64, LastUserActivity>
    decreases rows.len(),
{
    if rows.len() == 0 {
        m
    } else {
        apply_row(apply_rows(m, rows.drop_last(), reaction), rows.last(), reaction)
    }
}

/// Every user's activity, keyed by user id: the message rows applied in
/// order, then the reaction rows.
pub open spec fn merged_activity(messages: Seq<ActivityRow>, reactions: Seq<ActivityRow>) -> Map<u64, LastUserActivity> {
    apply_rows(apply_rows(Map::empty(), messages, false), reactions, true)
}

/// `v` holds each entry of `m` exactly once, under its own key.
pub open spec fn lists_exactly(v: Seq<LastUserActivity>, m: Map<u64, LastUserActivity>) -> bool {
    &&& forall|i: int| 0 <= i < v.len() ==> #[trigger] m.contains_key(v[i].user_id) && m[v[i].user_id] == v[i]
    &&& forall|k: u64| #[trigger] m.contains_key(k) ==> exists|i: int| 0 <= i < v.len() && v[i].user_id == k
    &&& forall|i: int, j: int| 0 <= i < j < v.len() ==> v[i].user_id != v[j].user_id
}

/// Position of user `id` in `v`, if it is there.
fn find_user(v: &Vec<LastUserActivity>, id: u64) -> (r: Option<usize>)
    ensures
        r matches Some(i) ==> i < v.len() && v@[i as int].user_id == id,
        r is None ==> forall|i: int| 0 <= i < v.len() ==> v@[i].user_id != id,
{
    let mut i: usize = 0;
    while i < v.len()
        invariant
            i <= v.len(),
            forall|j: int| 0 <= j < i ==> v@[j].user_id != id,
        decreases v.len() - i,
    {
        if v[i].user_id == id {
            return Some(i);
        }
        i = i + 1;
    }
    None
}

/// Applies the rows to the list `acc`, as `apply_rows` does to a map.
fn merge_rows(acc: &mut Vec<LastUserActivity>, rows: &Vec<ActivityRow>, reaction: bool, Ghost(m0): Ghost<Map<u64, LastUserActivity>>)
    requires
        lists_exactly(old(acc)@, m0),
        forall|i: int| 0 <= i < old(acc)@.len() ==> activity_ok(#[trigger] old(acc)@[i]),
        forall|i: int| 0 <= i < rows.len() ==> row_ok(#[trigger] rows@[i]),
    ensures
        lists_exactly(final(acc)@, apply_rows(m0, rows@, reaction)),
        forall|i: int| 0 <= i < final(acc)@.len() ==> activity_ok(#[trigger] final(acc)@[i]),
{
    let mut k: usize = 0;
    while k < rows.len()
        invariant
            k <= rows.len(),
            forall|i: int| 0 <= i < rows.len() ==> row_ok(#[trigger] rows@[i]),
            lists_exactly(acc@, apply_rows(m0, rows@.take(k as int), reaction)),
            forall|i: int| 0 <= i < acc@.len() ==> activity_ok(#[trigger] acc@[i]),
        decreases rows.len() - k,
    {
        let row = rows[k];
        let ghost before = apply_rows(m0, rows@.take(k as int), reaction);
        let ghost acc_before = acc@;
        assert(rows@.take(k as int + 1).drop_last() =~= rows@.take(k as int));
        assert(rows@.take(k as int + 1).last() == row);
        assert(row_ok(rows@[k as int]));
        match (row.user_id, row.is_bot) {
            (Some(raw_id), Some(is_bot)) => {
                let id: u64 = raw_id as u64;
                let stamp: Option<i64> = match row.last_timestamp {
                    Some(t) => {
                        let checked = unix_timestamp_checked(t);
                        match checked {
                            Some(c) => Some(c),
                            None => {
                                // Cannot happen: `row_ok` keeps the timestamp in range.
                                assert(spec_timestamp_from_unix(t as int) is Some);
                                None
                            },
                        }
                    },
                    None => None,
                };
                let ghost after = apply_rows(m0, rows@.take(k as int + 1), reaction);
                match find_user(acc, id) {
                    Some(pos) => {
                        let e = acc[pos];
                        let e2 = if reaction {
                            LastUserActivity { user_id: id, is_bot, last_reaction_timestamp: stamp, ..e }
                        } else {
                            LastUserActivity { user_id: id, is_bot, last_message_timestamp: stamp, ..e }
                        };
                        acc.set(pos, e2);
                        assert(after == before.insert(id, e2));
                        assert forall|i: int| 0 <= i < acc@.len() implies #[trigger] after.contains_key(acc@[i].user_id) && after[acc@[i].user_id] == acc@[i] by {
                            if i != pos as int {
                                assert(acc@[i] == acc_before[i]);
                                assert(acc_before[i].user_id != id);
                            } else {
                                assert(acc@[i] == e2);
                                assert(after[id] == e2);
                            }
                        }
                        assert forall|k2: u64| #[trigger] after.contains_key(k2) implies exists|i: int| 0 <= i < acc@.len() && acc@[i].user_id == k2 by {
                            if k2 == id {
                                assert(acc@[pos as int].user_id == k2);
                            } else {
                                assert(before.contains_key(k2));
                                let i0 = choose|i: int| 0 <= i < acc_before.len() && acc_before[i].user_id == k2;
                                assert(acc@[i0].user_id == k2);
                            }
                        }
                        assert(lists_exactly(acc@, after));
                    },
                    None => {
                        let e2 = if reaction {
                            LastUserActivity { user_id: id, is_bot, last_message_timestamp: None, last_reaction_timestamp: stamp }
                        } else {
                            LastUserActivity { user_id: id, is_bot, last_message_timestamp: stamp, last_reaction_timestamp: None }
                        };
                        acc.push(e2);
                        assert(!before.contains_key(id));
                        assert(after == before.insert(id, e2));
                        assert forall|i: int| 0 <= i < acc@.len() implies #[trigger] after.contains_key(acc@[i].user_id) && after[acc@[i].user_id] == acc@[i] by {
                            if i < acc_before.len() {
                                assert(acc@[i] == acc_before[i]);
                                assert(acc_before[i].user_id != id);
                            }
                        }
                        assert forall|k2: u64| #[trigger] after.contains_key(k2) implies exists|i: int| 0 <= i < acc@.len() && acc@[i].user_id == k2 by {
                            if k2 == id {
                                assert(acc@[acc_before.len() as int].user_id == k2);
                            } else {
                                assert(before.contains_key(k2));
                                let i0 = choose|i: int| 0 <= i < acc_before.len() && acc_before[i].user_id == k2;
                                assert(acc@[i0].user_id == k2);
                            }
                        }
                        assert(lists_exactly(acc@, after));
                    },
                }
            },
            _ => {
                assert(!row_counts(row));
                assert(apply_rows(m0, rows@.take(k as int + 1), reaction) == before);
            },
        }
        k = k + 1;
    }
    assert(rows@.take(rows.len() as int) =~= rows@);
}

/// Merges the per-user rows of messages and of reactions into one entry per
/// user, as the activity query of the bot does: message rows first, then
/// reaction rows, each row that names a user setting that user's entry.
pub fn merge_user_activity(messages: &Vec<ActivityRow>, reactions: &Vec<ActivityRow>) -> (r: Vec<LastUserActivity>)
    requires
        forall|i: int| 0 <= i < messages.len() ==> row_ok(#[trigger] messages@[i]),
        forall|i: int| 0 <= i < reactions.len() ==> row_ok(#[trigger] reactions@[i]),
    ensures
        lists_exactly(r@, merged_activity(messages@, reactions@)),
        forall|i: int| 0 <= i < r@.len() ==> activity_ok(#[trigger] r@[i]),
{
    let mut acc: Vec<LastUserActivity> = Vec::new();
    merge_rows(&mut acc, messages, false, Ghost(Map::empty()));
    merge_rows(&mut acc, reactions, true, Ghost(apply_rows(Map::empty(), messages@, false)));
    acc
}

/// The number of leading entries of `s`, from position `i` on, whose latest
/// activity is not after `k`, plus `i`: where an entry with latest activity
/// `k` goes, after all entries that are not later.
pub open spec fn insertion_point(s: Seq<LastUserActivity>, k: Option<i64>, i: int) -> int
    decreases s.len() - i,
{
    if i >= s.len() || i < 0 {
        if i < 0 { 0 } else { s.len() as int }
    } else if !key_le(s[i].latest(), k) {
        i
    } else {
        insertion_point(s, k, i + 1)
    }
}

/// `s` stably sorted by latest activity, as `sort_by_key` orders it:
/// each entry in turn goes after all earlier entries that are not later.
pub open spec fn sorted_by_latest(s: Seq<LastUserActivity>) -> Seq<LastUserActivity>
    decreases s.len(),
{
    if s.len() == 0 {
        s
    } else {
        let rest = sorted_by_latest(s.drop_last());
        rest.insert(insertion_point(rest, s.last().latest(), 0), s.last())
    }
}

/// Sorts `v` by latest activity, earliest first and users without any
/// activity before all others; users with equal latest activity keep their
/// order.
pub fn sort_by_last_activity(v: &mut Vec<LastUserActivity>)
    ensures
        final(v)@ == sorted_by_latest(old(v)@),
{
    let mut out: Vec<LastUserActivity> = Vec::new();
    let mut i: usize = 0;
    while i < v.len()
        invariant
            i <= v.len(),
            v@ == old(v)@,
            out@ == sorted_by_latest(v@.take(i as int)),
        decreases v.len() - i,
    {
        let x = v[i];
        let k = x.last_activity();
        let mut p: usize = 0;
        while p < out.len() && key_leq(out[p].last_activity(), k)
            invariant
                p <= out.len(),
                insertion_point(out@, k, 0) == insertion_point(out@, k, p as int),
            decreases out.len() - p,
        {
            p = p + 1;
        }
        assert(v@.take(i as int + 1).drop_last() =~= v@.take(i as int));
        assert(v@.take(i as int + 1).last() == x);
        out.insert(p, x);
        i = i + 1;
    }
    assert(v@.take(v.len() as int) =~= v@);
    *v = out;
}

/// Whether `s` is ordered by latest activity.
pub open spec fn is_sorted_by_latest(s: Seq<LastUserActivity>) -> bool {
    forall|i: int, j: int| 0 <= i < j < s.len() ==> key_le(#[trigger] s[i].latest(), #[trigger] s[j].latest())
}

proof fn lemma_insertion_point_bounds(s: Seq<LastUserActivity>, k: Option<i64>, i: int)
    requires
        0 <= i <= s.len(),
    ensures
        i <= insertion_point(s, k, i) <= s.len(),
        forall|j: int| i <= j < insertion_point(s, k, i) ==> key_le(#[trigger] s[j].latest(), k),
        insertion_point(s, k, i) < s.len() ==> !key_le(s[insertion_point(s, k, i)].latest(), k),
    decreases s.len() - i,
{
    if i < s.len() && key_le(s[i].latest(), k) {
        lemma_insertion_point_bounds(s, k, i + 1);
    }
}

/// Sorting puts entries in order of latest activity.
pub proof fn lemma_sorted_by_latest_is_sorted(s: Seq<LastUserActivity>)
    ensures
        is_sorted_by_latest(sorted_by_latest(s)),
    decreases s.len(),
{
    if s.len() > 0 {
        let rest = sorted_by_latest(s.drop_last());
        lemma_sorted_by_latest_is_sorted(s.drop_last());
        let k = s.last().latest();
        let p = insertion_point(rest, k, 0);
        lemma_insertion_point_bounds(rest, k, 0);
        let r = rest.insert(p, s.last());
        assert forall|i: int, j: int| 0 <= i < j < r.len() implies key_le(#[trigger] r[i].latest(), #[trigger] r[j].latest()) by {
            if j < p {
                assert(r[i] == rest[i] && r[j] == rest[j]);
            } else if j == p {
                assert(r[i] == rest[i]);
            } else if i == p {
                assert(r[j] == rest[j - 1]);
                assert(!key_le(rest[p].latest(), k));
                if j - 1 > p {
                    assert(key_le(rest[p].latest(), rest[j - 1].latest()));
                }
            } else if i < p {
                assert(r[i] == rest[i] && r[j] == rest[j - 1]);
            } else {
                assert(r[i] == rest[i - 1] && r[j] == rest[j - 1]);
            }
        }
    }
}

/// Sorting neither drops nor adds an entry: the result holds the same
/// entries, as many times each.
pub proof fn lemma_sorted_by_latest_permutes(s: Seq<LastUserActivity>)
    ensures
        sorted_by_latest(s).to_multiset() == s.to_multiset(),
    decreases s.len(),
{
    if s.len() > 0 {
        let rest = sorted_by_latest(s.drop_last());
        lemma_sorted_by_latest_permutes(s.drop_last());
        let k = s.last().latest();
        lemma_insertion_point_bounds(rest, k, 0);
        assert(s.drop_last().push(s.last()) =~= s);
    }
}

/// Sorting a sequence that is in order already leaves it as it is: entries
/// with equal latest activity keep their order.
pub proof fn lemma_sorting_sorted_is_identity(s: Seq<LastUserActivity>)
    requires
        is_sorted_by_latest(s),
    ensures
        sorted_by_latest(s) == s,
    decreases s.len(),
{
    if s.len() > 0 {
        let init = s.drop_last();
        assert(is_sorted_by_latest(init)) by {
            assert forall|i: int, j: int| 0 <= i < j < init.len() implies key_le(#[trigger] init[i].latest(), #[trigger] init[j].latest()) by {
                assert(init[i] == s[i] && init[j] == s[j]);
            }
        }
        lemma_sorting_sorted_is_identity(init);
        let k = s.last().latest();
        lemma_insertion_point_reaches_end(init, k, 0, s);
        assert(init.insert(init.len() as int, s.last()) =~= s);
    }
}

proof fn lemma_insertion_point_reaches_end(init: Seq<LastUserActivity>, k: Option<i64>, i: int, s: Seq<LastUserActivity>)
    requires
        0 <= i <= init.len(),
        s.len() == init.len() + 1,
        init == s.drop_last(),
        k == s.last().latest(),
        is_sorted_by_latest(s),
    ensures
        insertion_point(init, k, i) == init.len(),
    decreases init.len() - i,
{
    if i < init.len() {
        assert(init[i] == s[i]);
        assert(key_le(s[i].latest(), s[s.len() - 1].latest()));
        lemma_insertion_point_reaches_end(init, k, i + 1, s);
    }
}

/// The later of two optional instants is one of them, and neither is after
/// it.
pub proof fn lemma_later_is_max(a: Option<i64>, b: Option<i64>)
    ensures
        key_le(a, later(a, b)),
        key_le(b, later(a, b)),
        later(a, b) == a || later(a, b) == b,
{
}

/// The last row of `rows` that names user `id`, if any.
pub open spec fn last_row_for(rows: Seq<ActivityRow>, id: u64) -> Option<ActivityRow>
    decreases rows.len(),
{
    if rows.len() == 0 {
        None
    } else if row_counts(rows.last()) && rows.last().user_id->0 as u64 == id {
        Some(rows.last())
    } else {
        last_row_for(rows.drop_last(), id)
    }
}

/// What applying rows does to one user's entry: it exists when it existed
/// or a row names the user; the last such row sets the bot flag and its
/// kind of timestamp, the other kind stays.
pub proof fn lemma_apply_rows_entry(m: Map<u64, LastUserActivity>, rows: Seq<ActivityRow>, reaction: bool, id: u64)
    ensures
        apply_rows(m, rows, reaction).contains_key(id) <==> (m.contains_key(id) || last_row_for(rows, id) is Some),
        apply_rows(m, rows, reaction).contains_key(id) ==> {
            let e = apply_rows(m, rows, reaction)[id];
            let before = entry_of(m, id);
            match last_row_for(rows, id) {
                None => e == before,
                Some(r) => {
                    &&& e.user_id == id
                    &&& e.is_bot == r.is_bot->0
                    &&& (reaction ==> e.last_reaction_timestamp == r.last_timestamp
                        && e.last_message_timestamp == before.last_message_timestamp)
                    &&& (!reaction ==> e.last_message_timestamp == r.last_timestamp
                        && e.last_reaction_timestamp == before.last_reaction_timestamp)
                },
            }
        },
    decreases rows.len(),
{
    if rows.len() > 0 {
        lemma_apply_rows_entry(m, rows.drop_last(), reaction, id);
    }
}

/// The merged entry of a user: present exactly when a message row or a
/// reaction row names the user; its latest message comes from the last
/// message row naming the user, its latest reaction from the last reaction
/// row, and its bot flag from the last reaction row, or else the last
/// message row.
pub proof fn lemma_merged_entry(messages: Seq<ActivityRow>, reactions: Seq<ActivityRow>, id: u64)
    ensures
        merged_activity(messages, reactions).contains_key(id)
            <==> (last_row_for(messages, id) is Some || last_row_for(reactions, id) is Some),
        merged_activity(messages, reactions).contains_key(id) ==> {
            let e = merged_activity(messages, reactions)[id];
            &&& e.user_id == id
            &&& e.last_message_timestamp == match last_row_for(messages, id) {
                Some(r) => r.last_timestamp,
                None => None,
            }
            &&& e.last_reaction_timestamp == match last_row_for(reactions, id) {
                Some(r) => r.last_timestamp,
                None => None,
            }
            &&& e.is_bot == match last_row_for(reactions, id) {
                Some(r) => r.is_bot->0,
                None => last_row_for(messages, id)->0.is_bot->0,
            }
        },
{
    let m0 = Map::<u64, LastUserActivity>::empty();
    lemma_apply_rows_entry(m0, messages, false, id);
    let m1 = apply_rows(m0, messages, false);
    lemma_apply_rows_entry(m1, reactions, true, id);
}

} // verus!
