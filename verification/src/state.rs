//! Applying stored completion state to the to-do items of a calendar.
//!
//! The state of a to-do item is stored under the user's id followed by the
//! item's UID, as `<completion time>;<percent complete>`.

use vstd::prelude::*;

use crate::dates::{chrono_utc_from_str, utc_from_str};
use crate::model::{opt_view, TaskCalendar, TaskView};
use crate::text::{decimal, first_at, lemma_first_at_unique, lemma_parse_decimal};
use crate::text::{parse_unsigned, parse_unsigned_str, split_once, split_once_str};

verus! {

/// The completion time (written as `icalendar` writes UTC times) and the
/// percentage that a stored state value holds; `None` where the value has no
/// `;`, its time is not a UTC time, or its percentage is not a `u8`.
pub open spec fn stored_state(val: Seq<char>) -> Option<(Seq<char>, u8)> {
    match split_once(val, ';') {
        Some((dts, pcs)) => match chrono_utc_from_str(dts) {
            Some(c) => match parse_unsigned(pcs, 255) {
                Some(p) => Some((c, p as u8)),
                None => None,
            },
            None => None,
        },
        None => None,
    }
}

/// A to-do item with its completion time and percentage set.
pub open spec fn with_state(t: TaskView, completed: Seq<char>, percent: u8) -> TaskView {
    TaskView { completed: Some(completed), percent_complete: Some(percent), ..t }
}

/// The key under which the state of a to-do item with this UID is stored
/// for this user.
pub open spec fn state_key_of(user_id: Seq<char>, uid: Seq<char>) -> Seq<char> {
    user_id + uid
}

/// A to-do item after the stored value read under its key, if any, is
/// applied.
pub open spec fn state_applied(t: TaskView, value: Option<Seq<char>>) -> TaskView {
    match value {
        Some(v) => match stored_state(v) {
            Some((c, p)) => with_state(t, c, p),
            None => t,
        },
        None => t,
    }
}

/// Every stored value that was read can be read as a state.
pub open spec fn values_readable(values: Seq<Option<Seq<char>>>) -> bool {
    forall|i: int| 0 <= i < values.len() ==> (#[trigger] values[i] matches Some(v) ==> stored_state(v) is Some)
}

/// The views of optional strings.
pub open spec fn opt_views(values: Seq<Option<String>>) -> Seq<Option<Seq<char>>> {
    values.map_values(|v: Option<String>| opt_view(v))
}

/// The to-do items after the stored value read for each of them is applied;
/// `values[i]` is what the store holds under the key of item `i`.
pub open spec fn states_applied(ts: Seq<TaskView>, values: Seq<Option<Seq<char>>>) -> Seq<TaskView> {
    Seq::new(ts.len(), |i: int| state_applied(ts[i], values[i]))
}

/// Reads a stored state value.
fn read_state(val: &str) -> (r: Option<(String, u8)>)
    ensures
        match r {
            Some((c, p)) => stored_state(val@) == Some((c@, p)),
            None => stored_state(val@) is None,
        },
{
    let (dts, pcs) = match split_once_str(val, ';') {
        Some(parts) => parts,
        None => return None,
    };
    let completed = match utc_from_str(dts) {
        Some(c) => c,
        None => return None,
    };
    let percent = match parse_unsigned_str(pcs, 255) {
        Some(p) => p,
        None => return None,
    };
    Some((completed, percent as u8))
}

impl TaskCalendar {
    /// The key under which the state of the `i`-th to-do item is stored for
    /// this user: the user's id followed by the item's UID.
    pub fn state_key(&self, i: usize, user_id: &str) -> (k: String)
        requires
            i < self@.len(),
        ensures
            k@ == state_key_of(user_id@, self@[i as int].uid),
    {
        let mut k = user_id.to_owned();
        k.append(self.tasks[i].uid.as_str());
        k
    }

    /// Sets the completion time and percentage of the `i`-th to-do item from
    /// a stored state value.
    pub fn apply_state(&mut self, i: usize, val: &str)
        requires
            i < old(self)@.len(),
            stored_state(val@) is Some,
        ensures
            final(self)@ == old(self)@.update(
                i as int,
                with_state(old(self)@[i as int], stored_state(val@).unwrap().0, stored_state(val@).unwrap().1),
            ),
    {
        self.try_apply_state(i, val);
    }

    /// Sets the completion time and percentage of the `i`-th to-do item from
    /// a stored state value, if the value can be read; tells whether it
    /// could, and leaves the calendar as it was where it could not.
    pub fn try_apply_state(&mut self, i: usize, val: &str) -> (applied: bool)
        requires
            i < old(self)@.len(),
        ensures
            applied == stored_state(val@) is Some,
            applied ==> final(self)@ == old(self)@.update(
                i as int,
                with_state(old(self)@[i as int], stored_state(val@).unwrap().0, stored_state(val@).unwrap().1),
            ),
            !applied ==> final(self)@ == old(self)@,
    {
        match read_state(val) {
            None => false,
            Some((completed, percent)) => {
                let ghost before = self.tasks@;
                let mut t = self.tasks.remove(i);
                t.completed = Some(completed);
                t.percent_complete = Some(percent);
                self.tasks.insert(i, t);
                assert(self.tasks@ =~= before.update(i as int, t));
                assert(self@ =~= old(self)@.update(
                    i as int,
                    with_state(old(self)@[i as int], stored_state(val@).unwrap().0, stored_state(val@).unwrap().1),
                ));
                true
            },
        }
    }

    /// Applies to every to-do item the value that the store holds under its
    /// key (`values[i]` for item `i`, `None` where nothing is stored).  Where
    /// one of the values cannot be read as a state, the calendar is left as
    /// it was and the result is `false`.
    pub fn apply_stored_states(&mut self, values: &Vec<Option<String>>) -> (applied: bool)
        requires
            values@.len() == old(self)@.len(),
        ensures
            applied == values_readable(opt_views(values@)),
            applied ==> final(self)@ == states_applied(old(self)@, opt_views(values@)),
            !applied ==> final(self)@ == old(self)@,
    {
        let ghost vs = opt_views(values@);
        let n = values.len();
        let mut k: usize = 0;
        while k < n
            invariant
                n == values@.len(),
                vs == opt_views(values@),
                k <= n,
                forall|j: int| 0 <= j < k ==> (#[trigger] vs[j] matches Some(v) ==> stored_state(v) is Some),
            decreases n - k,
        {
            if let Some(v) = &values[k] {
                if read_state(v.as_str()).is_none() {
                    assert(!(vs[k as int] matches Some(v) ==> stored_state(v) is Some));
                    return false;
                }
            }
            k = k + 1;
        }
        let ghost before = self@;
        let mut i: usize = 0;
        while i < n
            invariant
                n == values@.len(),
                vs == opt_views(values@),
                n == before.len(),
                values_readable(vs),
                i <= n,
                self@.len() == n,
                forall|j: int| 0 <= j < i ==> self@[j] == state_applied(before[j], vs[j]),
                forall|j: int| i <= j < n ==> self@[j] == before[j],
            decreases n - i,
        {
            if let Some(v) = &values[i] {
                self.try_apply_state(i, v.as_str());
                assert(vs[i as int] == Some(v@));
            }
            i = i + 1;
        }
        assert(self@ =~= states_applied(before, vs));
        true
    }
}

/// Applying stored state keeps every to-do item's UID, so a second pass
/// reads the same keys; with the same stored values it changes nothing.
pub proof fn law_stored_state_idempotent(ts: Seq<TaskView>, values: Seq<Option<Seq<char>>>)
    requires
        values.len() == ts.len(),
        values_readable(values),
    ensures
        forall|i: int| 0 <= i < ts.len() ==> #[trigger] states_applied(ts, values)[i].uid == ts[i].uid,
        states_applied(states_applied(ts, values), values) == states_applied(ts, values),
{
    assert(states_applied(states_applied(ts, values), values) =~= states_applied(ts, values));
}

/// A stored value made of a UTC time, `;` and a percentage from 0 to 255
/// written in decimal reads as that time and exactly that percentage, 0 and
/// 100 included.
pub proof fn law_stored_state_reads_back(time: Seq<char>, completed: Seq<char>, percent: nat)
    requires
        chrono_utc_from_str(time) == Some(completed),
        !time.contains(';'),
        percent <= 255,
    ensures
        stored_state(time + seq![';'] + decimal(percent)) == Some((completed, percent as u8)),
{
    let v = time + seq![';'] + decimal(percent);
    let i = time.len() as int;
    assert(v[i] == ';');
    assert(v.take(i) =~= time);
    assert(first_at(v, ';', i));
    assert(v.contains(';'));
    let c = choose|c: int| first_at(v, ';', c);
    lemma_first_at_unique(v, ';', i, c);
    assert(v.skip(i + 1) =~= decimal(percent));
    lemma_parse_decimal(percent, 255);
    assert(split_once(v, ';') == Some((time, decimal(percent))));
}

} // verus!
