//! Turning the events of a calendar into to-do items.
//!
//! An event whose summary contains "odpre" opens an assignment; the event
//! that closes it has the UID whose leading number is one higher.  Each such
//! pair becomes one to-do item that starts when the opener starts and is due
//! when the closer ends.  Every other event becomes a to-do item of its own
//! that starts at the event's `LAST-MODIFIED` time.

use vstd::prelude::*;

use crate::dates::{chrono_naive_date, chrono_naive_date_time, chrono_utc_date_time};
use crate::dates::{naive_date, naive_date_time, utc_date_time, utc_stamp_format, utc_stamp_text};
use crate::ical::{calendar_from_str, calendar_items, calendar_len, ics_parse};
use crate::ical::{item_class, item_end, item_kind, item_property, item_start, item_timestamp};
use crate::model::{opt_view, ComponentKind, Error, ItemView, Task, TaskCalendar, TaskView};
use crate::text::{contains_text, decimal, decimal_string, lower, lowercase_contains};
use crate::text::{parse_unsigned, parse_unsigned_str, split_once, split_once_str};
use icalendar::{Calendar, DatePerhapsTime};

verus! {

/// Name of the unique identifier property.
pub open spec fn uid_key() -> Seq<char> {
    "UID"@
}

/// Name of the summary property.
pub open spec fn summary_key() -> Seq<char> {
    "SUMMARY"@
}

/// Name of the description property.
pub open spec fn description_key() -> Seq<char> {
    "DESCRIPTION"@
}

/// Name of the categories property.
pub open spec fn categories_key() -> Seq<char> {
    "CATEGORIES"@
}

/// Name of the last-modified property.
pub open spec fn last_modified_key() -> Seq<char> {
    "LAST-MODIFIED"@
}

/// The word that marks an event that opens an assignment.
pub open spec fn opener_word() -> Seq<char> {
    "odpre"@
}

/// The message of a `LAST-MODIFIED` value that is no date.
pub open spec fn not_a_date_message() -> Seq<char> {
    "Value does not look like a known DATE-TIME"@
}

/// The raw value of a property of a component, if it has one.
pub open spec fn prop(item: ItemView, key: Seq<char>) -> Option<Seq<char>> {
    if item.props.contains_key(key) {
        Some(item.props[key])
    } else {
        None
    }
}

/// The component is an event.
pub open spec fn is_event(item: ItemView) -> bool {
    item.kind == ComponentKind::Event
}

/// The UID of an event or a to-do; other components have none.
pub open spec fn item_uid(item: ItemView) -> Option<Seq<char>> {
    if item.kind == ComponentKind::Other {
        None
    } else {
        prop(item, uid_key())
    }
}

/// The UID that follows `uid`: its number before the first `@` plus one, with
/// the rest kept.  `None` where there is no `@`, the number is not a `usize`,
/// or adding one overflows.
pub open spec fn next_uid_of(uid: Seq<char>) -> Option<Seq<char>> {
    match split_once(uid, '@') {
        Some((number, rest)) => match parse_unsigned(number, usize::MAX as nat) {
            Some(n) => if n + 1 <= usize::MAX {
                Some(decimal((n + 1) as nat) + seq!['@'] + rest)
            } else {
                None
            },
            None => None,
        },
        None => None,
    }
}

/// An event has every field that turning it into a to-do item reads.
pub open spec fn convertible(item: ItemView) -> bool {
    &&& prop(item, summary_key()) is Some
    &&& prop(item, categories_key()) is Some
    &&& prop(item, description_key()) is Some
    &&& item.start is Some
    &&& item.end is Some
    &&& prop(item, uid_key()) is Some
    &&& item.timestamp is Some
    &&& item.class is Some
}

/// The to-do item made from an event, with the given start and end; it is
/// due when it ends and carries no completion state.
pub open spec fn task_from(item: ItemView, start: DatePerhapsTime, end: DatePerhapsTime) -> TaskView {
    TaskView {
        summary: prop(item, summary_key()).unwrap(),
        categories: prop(item, categories_key()).unwrap(),
        description: prop(item, description_key()).unwrap(),
        start,
        end,
        due: end,
        uid: prop(item, uid_key()).unwrap(),
        timestamp: item.timestamp.unwrap(),
        class: item.class.unwrap(),
        completed: None,
        percent_complete: None,
    }
}

/// The event whose summary marks it as an opener.
pub open spec fn is_opener(item: ItemView) -> bool {
    &&& is_event(item)
    &&& prop(item, summary_key()) matches Some(s)
    &&& contains_text(lower(s), opener_word())
}

/// The result of looking for the event with a given UID.
pub enum Partner {
    /// The first event with that UID is at this index.
    At(int),
    /// No event has that UID.
    Absent,
    /// An event without a UID comes before any event with that UID.
    Unreadable,
}

/// Looks through the events from index `j` on for the first one whose UID
/// is `target`.
pub open spec fn partner_from(items: Seq<ItemView>, target: Seq<char>, j: int) -> Partner
    decreases items.len() - j,
{
    if j < 0 || j >= items.len() {
        Partner::Absent
    } else if !is_event(items[j]) {
        partner_from(items, target, j + 1)
    } else {
        match prop(items[j], uid_key()) {
            None => Partner::Unreadable,
            Some(u) => if u == target {
                Partner::At(j)
            } else {
                partner_from(items, target, j + 1)
            },
        }
    }
}

/// What the pass over openers has built so far.
pub struct Pairing {
    /// The to-do items made from pairs, in the order of their openers.
    pub tasks: Seq<TaskView>,
    /// The UIDs of openers and closers that have been paired.
    pub consumed: Set<Seq<char>>,
}

/// One step of the pass over openers, on the component at index `i`.
/// `None` where a value that this step reads is missing or malformed, so
/// the step panics.
pub open spec fn pair_step(items: Seq<ItemView>, i: int, acc: Pairing) -> Option<Pairing> {
    let item = items[i];
    if !is_event(item) {
        Some(acc)
    } else {
        match prop(item, summary_key()) {
            None => None,
            Some(s) => if !contains_text(lower(s), opener_word()) {
                Some(acc)
            } else {
                match prop(item, uid_key()) {
                    None => None,
                    Some(u) => match next_uid_of(u) {
                        None => None,
                        Some(nu) => match partner_from(items, nu, 0) {
                            Partner::Unreadable => None,
                            Partner::Absent => Some(acc),
                            Partner::At(j) => if convertible(item) && items[j].end is Some {
                                Some(
                                    Pairing {
                                        tasks: acc.tasks.push(
                                            task_from(item, item.start.unwrap(), items[j].end.unwrap()),
                                        ),
                                        consumed: acc.consumed.insert(u).insert(nu),
                                    },
                                )
                            } else {
                                None
                            },
                        },
                    },
                }
            },
        }
    }
}

/// The pass over openers, on the first `n` components.
pub open spec fn pairing(items: Seq<ItemView>, n: nat) -> Option<Pairing>
    decreases n,
{
    if n == 0 {
        Some(Pairing { tasks: Seq::empty(), consumed: Set::empty() })
    } else {
        match pairing(items, (n - 1) as nat) {
            None => None,
            Some(acc) => pair_step(items, n - 1, acc),
        }
    }
}

/// How turning a calendar into to-do items ends.
pub enum Outcome {
    /// The to-do items, in order.
    Done(Seq<TaskView>),
    /// An error with this message.
    Fails(Seq<char>),
    /// A value that the transformation reads is missing or malformed, so it
    /// panics.
    Panics,
}

/// The date that a `LAST-MODIFIED` value gives, read as a UTC date-time, a
/// date, or a floating date-time, in that order.
pub open spec fn date_from_text(val: Seq<char>) -> Option<DatePerhapsTime> {
    let utc = chrono_utc_date_time(val, "%Y%m%dT%H%M%SZ"@);
    let date = chrono_naive_date(val, "%Y%m%d"@);
    if utc is Some {
        utc
    } else if date is Some {
        date
    } else {
        chrono_naive_date_time(val, "%Y%m%dT%H%M%S"@)
    }
}

/// One step of the pass over the remaining components: an event that was not
/// paired becomes a to-do item that starts at its `LAST-MODIFIED` time.
pub open spec fn rest_step(item: ItemView, consumed: Set<Seq<char>>, tasks: Seq<TaskView>) -> Outcome {
    match item_uid(item) {
        None => Outcome::Panics,
        Some(u) => if consumed.contains(u) || !is_event(item) {
            Outcome::Done(tasks)
        } else if !convertible(item) {
            Outcome::Panics
        } else {
            match prop(item, last_modified_key()) {
                None => Outcome::Panics,
                Some(lm) => match date_from_text(lm) {
                    None => Outcome::Fails(not_a_date_message()),
                    Some(d) => Outcome::Done(tasks.push(task_from(item, d, item.end.unwrap()))),
                },
            }
        },
    }
}

/// The pass over the remaining components, on the first `n` of them,
/// appending to `tasks`.
pub open spec fn remaining(items: Seq<ItemView>, consumed: Set<Seq<char>>, n: nat, tasks: Seq<TaskView>) -> Outcome
    decreases n,
{
    if n == 0 {
        Outcome::Done(tasks)
    } else {
        match remaining(items, consumed, (n - 1) as nat, tasks) {
            Outcome::Done(ts) => rest_step(items[n - 1], consumed, ts),
            other => other,
        }
    }
}

/// What turning the components of a calendar into to-do items gives.
pub open spec fn plan(items: Seq<ItemView>) -> Outcome {
    match pairing(items, items.len()) {
        None => Outcome::Panics,
        Some(p) => remaining(items, p.consumed, items.len(), p.tasks),
    }
}

/// What turning iCalendar text into to-do items gives.
pub open spec fn transform_outcome(text: Seq<char>) -> Outcome {
    match ics_parse(text) {
        None => Outcome::Panics,
        Some(Err(m)) => Outcome::Fails(m),
        Some(Ok(items)) => plan(items),
    }
}

/// The views of a sequence of to-do items.
pub open spec fn task_views(tasks: Seq<Task>) -> Seq<TaskView> {
    tasks.map_values(|t: Task| t@)
}

/// The texts that a sequence of strings holds.
pub open spec fn names(v: Seq<String>) -> Set<Seq<char>> {
    Set::new(|x: Seq<char>| exists|i: int| 0 <= i < v.len() && v[i]@ == x)
}

/// The event that the search finds lies at or after where the search began,
/// within the calendar, and carries the UID that was looked for.
pub proof fn lemma_partner_found(items: Seq<ItemView>, target: Seq<char>, j0: int, j: int)
    requires
        partner_from(items, target, j0) == Partner::At(j),
    ensures
        j0 <= j < items.len(),
        is_event(items[j]),
        prop(items[j], uid_key()) == Some(target),
    decreases items.len() - j0,
{
    if 0 <= j0 < items.len() && !(is_event(items[j0]) && prop(items[j0], uid_key()) == Some(target)) {
        lemma_partner_found(items, target, j0 + 1, j);
    }
}

/// Once the pass over openers stops, it stays stopped.
pub proof fn lemma_pairing_stops(items: Seq<ItemView>, k: nat, n: nat)
    requires
        k <= n,
        pairing(items, k) is None,
    ensures
        pairing(items, n) is None,
    decreases n - k,
{
    if k < n {
        lemma_pairing_stops(items, k, (n - 1) as nat);
    }
}

/// Once the pass over the remaining components stops, its outcome stays.
pub proof fn lemma_remaining_stops(
    items: Seq<ItemView>,
    consumed: Set<Seq<char>>,
    tasks: Seq<TaskView>,
    k: nat,
    n: nat,
)
    requires
        k <= n,
        !(remaining(items, consumed, k, tasks) is Done),
    ensures
        remaining(items, consumed, n, tasks) == remaining(items, consumed, k, tasks),
    decreases n - k,
{
    if k < n {
        lemma_remaining_stops(items, consumed, tasks, k, (n - 1) as nat);
    }
}

/// Parses iCalendar text into a calendar; a text that does not parse gives
/// the parser's message as the error.
///
/// The parser panics on some texts, and which texts those are is not stated,
/// so no verified function can establish `requires`: this function is
/// meant to be called from unverified code, where a text on which the parser
/// panics makes the call panic.
pub fn parse_calendar(s: &str) -> (r: Result<Calendar, Error>)
    requires
        ics_parse(s@) is Some,
    ensures
        match r {
            Ok(c) => ics_parse(s@) == Some(Ok::<Seq<ItemView>, Seq<char>>(calendar_items(c))),
            Err(Error::RustError(m)) => ics_parse(s@) == Some(Err::<Seq<ItemView>, Seq<char>>(m@)),
        },
{
    match calendar_from_str(s) {
        Ok(c) => Ok(c),
        Err(m) => Err(Error::RustError(m)),
    }
}

/// The UID that follows `uid`: the number before the first `@` plus one,
/// followed by `@` and the rest of `uid`.
pub fn next_uid(uid: &str) -> (r: String)
    requires
        next_uid_of(uid@) is Some,
    ensures
        next_uid_of(uid@) == Some(r@),
{
    next_uid_checked(uid).unwrap()
}

/// The UID that follows `uid`, or `None` where `uid` has no `@`, its number
/// is not a `usize`, or adding one overflows.
pub fn next_uid_checked(uid: &str) -> (r: Option<String>)
    ensures
        match r {
            Some(v) => next_uid_of(uid@) == Some(v@),
            None => next_uid_of(uid@) is None,
        },
{
    let (s1, s2) = match split_once_str(uid, '@') {
        Some(parts) => parts,
        None => return None,
    };
    let num: usize = match parse_unsigned_str(s1, usize::MAX) {
        Some(n) => n,
        None => return None,
    };
    if num == usize::MAX {
        return None;
    }
    let mut r = decimal_string(num + 1);
    proof { reveal_strlit("@"); }
    r.append("@");
    r.append(s2);
    assert(r@ =~= decimal((num + 1) as nat) + seq!['@'] + s2@);
    Some(r)
}

/// Reads a date from a `LAST-MODIFIED` value: a UTC date-time, else a date,
/// else a date-time without a zone.
pub fn try_from(val: &str) -> (r: Result<DatePerhapsTime, &'static str>)
    ensures
        match r {
            Ok(d) => date_from_text(val@) == Some(d),
            Err(m) => date_from_text(val@) is None && m@ == not_a_date_message(),
        },
        utc_stamp_text(val@) ==> (r matches Ok(d) && chrono_utc_date_time(val@, utc_stamp_format())
            == Some(d) && forall|other: Seq<char>|
            utc_stamp_text(other) && other != val@ ==> #[trigger] chrono_utc_date_time(
                other,
                utc_stamp_format(),
            ) != Some(d)),
{
    if let Some(utc_dt) = utc_date_time(val, "%Y%m%dT%H%M%SZ") {
        return Ok(utc_dt);
    }
    if let Some(naive_date) = naive_date(val, "%Y%m%d") {
        return Ok(naive_date);
    }
    if let Some(naive_dt) = naive_date_time(val, "%Y%m%dT%H%M%S") {
        return Ok(naive_dt);
    }
    Err("Value does not look like a known DATE-TIME")
}

/// The UID of the `i`-th component if it is an event or a to-do.
pub fn get_uid(cal: &Calendar, i: usize) -> (r: Option<String>)
    requires
        i < calendar_items(*cal).len(),
    ensures
        opt_view(r) == item_uid(calendar_items(*cal)[i as int]),
{
    match item_kind(cal, i) {
        ComponentKind::Event => item_property(cal, i, "UID"),
        ComponentKind::Todo => item_property(cal, i, "UID"),
        ComponentKind::Other => None,
    }
}

/// The to-do item made from the event at index `i`, starting and ending
/// when the event does.
pub fn event_to_todo(cal: &Calendar, i: usize) -> (t: Task)
    requires
        i < calendar_items(*cal).len(),
        convertible(calendar_items(*cal)[i as int]),
    ensures
        t@ == task_from(
            calendar_items(*cal)[i as int],
            calendar_items(*cal)[i as int].start.unwrap(),
            calendar_items(*cal)[i as int].end.unwrap(),
        ),
{
    Task {
        summary: item_property(cal, i, "SUMMARY").unwrap(),
        categories: item_property(cal, i, "CATEGORIES").unwrap(),
        description: item_property(cal, i, "DESCRIPTION").unwrap(),
        start: item_start(cal, i).unwrap(),
        end: item_end(cal, i).unwrap(),
        due: item_end(cal, i).unwrap(),
        uid: item_property(cal, i, "UID").unwrap(),
        timestamp: item_timestamp(cal, i).unwrap(),
        class: item_class(cal, i).unwrap(),
        completed: None,
        percent_complete: None,
    }
}

/// Looks for the first event whose UID is `target`; `None` in the outer
/// option where an event without a UID comes first.
fn find_partner(cal: &Calendar, target: &String) -> (r: Option<Option<usize>>)
    ensures
        match r {
            None => partner_from(calendar_items(*cal), target@, 0) is Unreadable,
            Some(None) => partner_from(calendar_items(*cal), target@, 0) is Absent,
            Some(Some(j)) => partner_from(calendar_items(*cal), target@, 0) == Partner::At(j as int),
        },
{
    let ghost items = calendar_items(*cal);
    let n = calendar_len(cal);
    let mut j: usize = 0;
    while j < n
        invariant
            items == calendar_items(*cal),
            n == items.len(),
            j <= n,
            partner_from(items, target@, 0) == partner_from(items, target@, j as int),
        decreases n - j,
    {
        if item_kind(cal, j) == ComponentKind::Event {
            match item_property(cal, j, "UID") {
                None => {
                    return None;
                },
                Some(u) => {
                    if u == *target {
                        return Some(Some(j));
                    }
                },
            }
        }
        j = j + 1;
    }
    Some(None)
}

/// Whether one of the strings of `v` is `s`.
fn contains_name(v: &Vec<String>, s: &String) -> (r: bool)
    ensures
        r == names(v@).contains(s@),
{
    let mut i: usize = 0;
    while i < v.len()
        invariant
            i <= v.len(),
            forall|k: int| 0 <= k < i ==> v@[k]@ != s@,
        decreases v.len() - i,
    {
        if v[i] == *s {
            assert(names(v@).contains(s@));
            return true;
        }
        i = i + 1;
    }
    false
}

/// Whether the `i`-th component has every field that turning it into a
/// to-do item reads.
pub fn is_convertible(cal: &Calendar, i: usize) -> (r: bool)
    requires
        i < calendar_items(*cal).len(),
    ensures
        r == convertible(calendar_items(*cal)[i as int]),
{
    item_property(cal, i, "SUMMARY").is_some() && item_property(cal, i, "CATEGORIES").is_some()
        && item_property(cal, i, "DESCRIPTION").is_some() && item_start(cal, i).is_some()
        && item_end(cal, i).is_some() && item_property(cal, i, "UID").is_some()
        && item_timestamp(cal, i).is_some() && item_class(cal, i).is_some()
}

/// Turns the components of a calendar into to-do items: first every opener
/// that has a closer, as one item each, then every event that was not paired.
/// `None` where a value that the transformation reads is missing or
/// malformed: a calendar that [`transform_calendar`] does not accept.
pub fn plan_calendar(cal: &Calendar) -> (r: Option<Result<TaskCalendar, Error>>)
    ensures
        match r {
            None => plan(calendar_items(*cal)) is Panics,
            Some(Ok(t)) => plan(calendar_items(*cal)) == Outcome::Done(t@),
            Some(Err(Error::RustError(m))) => plan(calendar_items(*cal)) == Outcome::Fails(m@),
        },
{
    let ghost items = calendar_items(*cal);
    let n = calendar_len(cal);
    let mut tasks: Vec<Task> = Vec::new();
    let mut consumed: Vec<String> = Vec::new();
    let mut i: usize = 0;
    assert(task_views(tasks@) =~= Seq::<TaskView>::empty());
    assert(names(consumed@) =~= Set::<Seq<char>>::empty());
    // first pass: every opener with its closer
    while i < n
        invariant
            items == calendar_items(*cal),
            n == items.len(),
            i <= n,
            pairing(items, i as nat) == Some(
                Pairing { tasks: task_views(tasks@), consumed: names(consumed@) },
            ),
        decreases n - i,
    {
        let ghost acc = Pairing { tasks: task_views(tasks@), consumed: names(consumed@) };
        assert(pairing(items, (i + 1) as nat) == pair_step(items, i as int, acc));
        if item_kind(cal, i) == ComponentKind::Event {
            let summary = match item_property(cal, i, "SUMMARY") {
                Some(s) => s,
                None => {
                    proof { lemma_pairing_stops(items, (i + 1) as nat, n as nat); }
                    return None;
                },
            };
            if lowercase_contains(summary.as_str(), "odpre") {
                let uid = match item_property(cal, i, "UID") {
                    Some(u) => u,
                    None => {
                        proof { lemma_pairing_stops(items, (i + 1) as nat, n as nat); }
                        return None;
                    },
                };
                let nu = match next_uid_checked(uid.as_str()) {
                    Some(v) => v,
                    None => {
                        proof { lemma_pairing_stops(items, (i + 1) as nat, n as nat); }
                        return None;
                    },
                };
                match find_partner(cal, &nu) {
                    None => {
                        proof { lemma_pairing_stops(items, (i + 1) as nat, n as nat); }
                        return None;
                    },
                    Some(None) => {},
                    Some(Some(j)) => {
                        proof { lemma_partner_found(items, nu@, 0, j as int); }
                        if !is_convertible(cal, i) || item_end(cal, j).is_none() {
                            proof { lemma_pairing_stops(items, (i + 1) as nat, n as nat); }
                            return None;
                        }
                        let mut todo = event_to_todo(cal, i);
                        todo.end = item_end(cal, j).unwrap();
                        todo.due = item_end(cal, j).unwrap();
                        let ghost old_tasks = tasks@;
                        let ghost old_consumed = consumed@;
                        assert(todo@ == task_from(
                            items[i as int],
                            items[i as int].start.unwrap(),
                            items[j as int].end.unwrap(),
                        ));
                        tasks.push(todo);
                        assert(task_views(tasks@) =~= task_views(old_tasks).push(todo@));
                        let ghost u = uid@;
                        let ghost v = nu@;
                        consumed.push(uid);
                        consumed.push(nu);
                        assert(names(consumed@) =~= names(old_consumed).insert(u).insert(v)) by {
                            assert(consumed@[consumed@.len() - 2]@ == u);
                            assert(consumed@[consumed@.len() - 1]@ == v);
                            assert forall|x: Seq<char>| names(consumed@).contains(x) implies names(
                                old_consumed,
                            ).insert(u).insert(v).contains(x) by {
                                let k = choose|k: int| 0 <= k < consumed@.len() && consumed@[k]@ == x;
                                if k < old_consumed.len() {
                                    assert(old_consumed[k]@ == x);
                                }
                            }
                            assert forall|x: Seq<char>| names(old_consumed).contains(x) implies names(
                                consumed@,
                            ).contains(x) by {
                                let k = choose|k: int| 0 <= k < old_consumed.len() && old_consumed[k]@ == x;
                                assert(consumed@[k] == old_consumed[k]);
                            }
                        }
                    },
                }
            }
        }
        i = i + 1;
    }
    let ghost c = names(consumed@);
    let ghost t1 = task_views(tasks@);
    // second pass: every event that was not paired
    let mut k: usize = 0;
    while k < n
        invariant
            items == calendar_items(*cal),
            n == items.len(),
            k <= n,
            pairing(items, n as nat) == Some(Pairing { tasks: t1, consumed: c }),
            names(consumed@) == c,
            remaining(items, c, k as nat, t1) == Outcome::Done(task_views(tasks@)),
        decreases n - k,
    {
        assert(remaining(items, c, (k + 1) as nat, t1) == rest_step(items[k as int], c, task_views(tasks@)));
        let uid = match get_uid(cal, k) {
            Some(u) => u,
            None => {
                proof { lemma_remaining_stops(items, c, t1, (k + 1) as nat, n as nat); }
                return None;
            },
        };
        if !contains_name(&consumed, &uid) && item_kind(cal, k) == ComponentKind::Event {
            if !is_convertible(cal, k) {
                proof { lemma_remaining_stops(items, c, t1, (k + 1) as nat, n as nat); }
                return None;
            }
            let mut todo = event_to_todo(cal, k);
            let lm = match item_property(cal, k, "LAST-MODIFIED") {
                Some(v) => v,
                None => {
                    proof { lemma_remaining_stops(items, c, t1, (k + 1) as nat, n as nat); }
                    return None;
                },
            };
            match try_from(lm.as_str()) {
                Ok(d) => {
                    todo.start = d;
                },
                Err(m) => {
                    proof { lemma_remaining_stops(items, c, t1, (k + 1) as nat, n as nat); }
                    return Some(Err(Error::RustError(String::from_str(m))));
                },
            }
            let ghost old_tasks = tasks@;
            tasks.push(todo);
            assert(task_views(tasks@) =~= task_views(old_tasks).push(todo@));
        }
        k = k + 1;
    }
    Some(Ok(TaskCalendar { tasks }))
}

/// Turns a parsed calendar into to-do items.  A verified caller learns that
/// `requires` holds from [`plan_calendar`], which gives the same result and
/// `None` where this function is not defined.
pub fn transform_calendar(cal: &Calendar) -> (r: Result<TaskCalendar, Error>)
    requires
        !(plan(calendar_items(*cal)) is Panics),
    ensures
        match r {
            Ok(t) => plan(calendar_items(*cal)) == Outcome::Done(t@),
            Err(Error::RustError(m)) => plan(calendar_items(*cal)) == Outcome::Fails(m@),
        },
{
    match plan_calendar(cal) {
        Some(r) => r,
        None => {
            assert(false);
            Err(Error::RustError(String::new()))
        },
    }
}

/// Parses iCalendar text and turns it into to-do items; `None` where a
/// value that the transformation reads is missing or malformed.
///
/// Like [`parse_calendar`], it is meant to be called from unverified code:
/// no verified function can establish that the parser returns for a text.
pub fn try_transform(s: String) -> (r: Option<Result<TaskCalendar, Error>>)
    requires
        ics_parse(s@) is Some,
    ensures
        match r {
            None => transform_outcome(s@) is Panics,
            Some(Ok(t)) => transform_outcome(s@) == Outcome::Done(t@),
            Some(Err(Error::RustError(m))) => transform_outcome(s@) == Outcome::Fails(m@),
        },
{
    match parse_calendar(s.as_str()) {
        Ok(cal) => plan_calendar(&cal),
        Err(e) => Some(Err(e)),
    }
}

/// Parses iCalendar text and turns it into a calendar of to-do items.
///
/// Like [`parse_calendar`], it is meant to be called from unverified code:
/// `requires` includes that the parser returns for the text, which no
/// verified function can establish.
pub fn transform(s: String) -> (r: Result<TaskCalendar, Error>)
    requires
        !(transform_outcome(s@) is Panics),
    ensures
        match r {
            Ok(t) => transform_outcome(s@) == Outcome::Done(t@),
            Err(Error::RustError(m)) => transform_outcome(s@) == Outcome::Fails(m@),
        },
{
    match try_transform(s) {
        Some(r) => r,
        None => {
            assert(false);
            Err(Error::RustError(String::new()))
        },
    }
}

} // verus!
