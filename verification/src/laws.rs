//! Properties of turning a calendar into to-do items that hold for every
//! calendar.

use vstd::prelude::*;

use crate::dates;
use crate::ical;
use crate::model::{ItemView, TaskView};
use crate::text;
use crate::transformer::{self, Outcome, Pairing};

verus! {

/// What every to-do item made from the calendar `items` has: it carries the
/// UID of an event of the calendar, it is due when it ends, and it carries no
/// completion state.
pub open spec fn made_from_events(items: Seq<ItemView>, ts: Seq<TaskView>) -> bool {
    forall|k: int| 0 <= k < ts.len() ==> made_from_event(items, #[trigger] ts[k])
}

/// A to-do item carries the UID of an event of the calendar `items`, is due
/// when it ends, and carries no completion state.
pub open spec fn made_from_event(items: Seq<ItemView>, t: TaskView) -> bool {
    &&& exists|i: int|
        0 <= i < items.len() && transformer::is_event(#[trigger] items[i]) && transformer::prop(
            items[i],
            transformer::uid_key(),
        ) == Some(t.uid)
    &&& t.due == t.end
    &&& t.completed is None
    &&& t.percent_complete is None
}

proof fn lemma_task_from_event(items: Seq<ItemView>, i: int, s: icalendar::DatePerhapsTime, e: icalendar::DatePerhapsTime)
    requires
        0 <= i < items.len(),
        transformer::is_event(items[i]),
        transformer::convertible(items[i]),
    ensures
        made_from_events(items, seq![transformer::task_from(items[i], s, e)]),
{
    let t = transformer::task_from(items[i], s, e);
    assert(transformer::prop(items[i], transformer::uid_key()) == Some(t.uid));
    assert(made_from_event(items, seq![t][0]));
}

proof fn lemma_push_made(items: Seq<ItemView>, ts: Seq<TaskView>, t: TaskView)
    requires
        made_from_events(items, ts),
        made_from_events(items, seq![t]),
    ensures
        made_from_events(items, ts.push(t)),
{
    assert(made_from_event(items, seq![t][0]));
    assert forall|k: int| 0 <= k < ts.push(t).len() implies made_from_event(
        items,
        #[trigger] ts.push(t)[k],
    ) by {
        if k < ts.len() {
            assert(ts.push(t)[k] == ts[k]);
        } else {
            assert(ts.push(t)[k] == seq![t][0]);
        }
    }
}

proof fn lemma_pairing_made(items: Seq<ItemView>, n: nat)
    requires
        n <= items.len(),
        pairing_is_some(items, n),
    ensures
        made_from_events(items, transformer::pairing(items, n).unwrap().tasks),
    decreases n,
{
    if n > 0 {
        lemma_pairing_prefix_some(items, (n - 1) as nat, n);
        lemma_pairing_made(items, (n - 1) as nat);
        let acc = transformer::pairing(items, (n - 1) as nat).unwrap();
        let i = n - 1;
        let item = items[i];
        if transformer::is_opener(item) {
            let u = transformer::prop(item, transformer::uid_key()).unwrap();
            let nu = transformer::next_uid_of(u).unwrap();
            if let transformer::Partner::At(j) = transformer::partner_from(items, nu, 0) {
                lemma_task_from_event(items, i, item.start.unwrap(), items[j].end.unwrap());
                lemma_push_made(
                    items,
                    acc.tasks,
                    transformer::task_from(item, item.start.unwrap(), items[j].end.unwrap()),
                );
            }
        }
    }
}

/// The pass over openers has not stopped on the first `n` components.
pub open spec fn pairing_is_some(items: Seq<ItemView>, n: nat) -> bool {
    transformer::pairing(items, n) is Some
}

proof fn lemma_pairing_prefix_some(items: Seq<ItemView>, k: nat, n: nat)
    requires
        k <= n,
        pairing_is_some(items, n),
    ensures
        pairing_is_some(items, k),
{
    if !pairing_is_some(items, k) {
        transformer::lemma_pairing_stops(items, k, n);
    }
}

proof fn lemma_remaining_made(
    items: Seq<ItemView>,
    consumed: Set<Seq<char>>,
    n: nat,
    tasks: Seq<TaskView>,
    ts: Seq<TaskView>,
)
    requires
        n <= items.len(),
        made_from_events(items, tasks),
        transformer::remaining(items, consumed, n, tasks) == Outcome::Done(ts),
    ensures
        made_from_events(items, ts),
        tasks.len() <= ts.len(),
        ts.take(tasks.len() as int) == tasks,
        forall|k: int| tasks.len() <= k < ts.len() ==> !consumed.contains(#[trigger] ts[k].uid),
    decreases n,
{
    if n == 0 {
        assert(ts.take(tasks.len() as int) =~= tasks);
    } else {
        let prev = transformer::remaining(items, consumed, (n - 1) as nat, tasks);
        if let Outcome::Done(ps) = prev {
            lemma_remaining_made(items, consumed, (n - 1) as nat, tasks, ps);
            let item = items[n - 1];
            if ts != ps {
                let d = transformer::date_from_text(
                    transformer::prop(item, transformer::last_modified_key()).unwrap(),
                ).unwrap();
                let t = transformer::task_from(item, d, item.end.unwrap());
                assert(ts == ps.push(t));
                lemma_task_from_event(items, n - 1, d, item.end.unwrap());
                lemma_push_made(items, ps, t);
                assert(ts.take(tasks.len() as int) =~= ps.take(tasks.len() as int));
                assert forall|k: int| tasks.len() <= k < ts.len() implies !consumed.contains(
                    #[trigger] ts[k].uid,
                ) by {
                    if k < ps.len() {
                        assert(ts[k] == ps[k]);
                    }
                }
            }
        } else {
            transformer::lemma_remaining_stops(items, consumed, tasks, (n - 1) as nat, n);
        }
    }
}

/// Every to-do item made from a calendar carries the UID of one of its
/// events, is due when it ends, and carries no completion state yet.
pub proof fn law_tasks_from_events(items: Seq<ItemView>, ts: Seq<TaskView>)
    requires
        transformer::plan(items) == Outcome::Done(ts),
    ensures
        made_from_events(items, ts),
{
    lemma_pairing_made(items, items.len());
    let p = transformer::pairing(items, items.len()).unwrap();
    lemma_remaining_made(items, p.consumed, items.len(), p.tasks, ts);
}

/// The to-do items made from pairs come first, in the order of their
/// openers; every later item carries a UID that no pair used, so neither an
/// opener nor its closer becomes an item of its own.
pub proof fn law_paired_events_not_repeated(items: Seq<ItemView>, p: Pairing, ts: Seq<TaskView>)
    requires
        transformer::pairing(items, items.len()) == Some(p),
        transformer::plan(items) == Outcome::Done(ts),
    ensures
        p.tasks.len() <= ts.len(),
        ts.take(p.tasks.len() as int) == p.tasks,
        forall|k: int| p.tasks.len() <= k < ts.len() ==> !p.consumed.contains(#[trigger] ts[k].uid),
{
    lemma_pairing_made(items, items.len());
    lemma_remaining_made(items, p.consumed, items.len(), p.tasks, ts);
}

/// The UID that follows another keeps everything after the first `@` and
/// carries the number before it plus one.
pub proof fn law_next_uid_increments(uid: Seq<char>, number: Seq<char>, rest: Seq<char>, n: nat)
    requires
        text::split_once(uid, '@') == Some((number, rest)),
        text::parse_unsigned(number, usize::MAX as nat) == Some(n),
        n < usize::MAX,
    ensures
        transformer::next_uid_of(uid) matches Some(next) && text::split_once(next, '@') == Some(
            (text::decimal(n + 1), rest),
        ) && text::parse_unsigned(text::decimal(n + 1), usize::MAX as nat) == Some(n + 1),
{
    let d = text::decimal(n + 1);
    let next = d + seq!['@'] + rest;
    assert(transformer::next_uid_of(uid) == Some(next));
    text::lemma_decimal_digits(n + 1);
    text::lemma_parse_decimal(n + 1, usize::MAX as nat);
    let i = d.len() as int;
    assert(next[i] == '@');
    assert(next.take(i) =~= d);
    assert(!d.contains('@')) by {
        if d.contains('@') {
            let j = choose|j: int| 0 <= j < d.len() && d[j] == '@';
            assert(text::is_digit(d[j]));
        }
    }
    assert(text::first_at(next, '@', i));
    assert(next.contains('@'));
    let c = choose|c: int| text::first_at(next, '@', c);
    text::lemma_first_at_unique(next, '@', i, c);
    assert(next.skip(i + 1) =~= rest);
}

/// A to-do item made from a pair: the opener `i` and the closer `j` of the
/// calendar `items`, the closer carrying the UID that follows the opener's.
pub open spec fn made_from_pair(items: Seq<ItemView>, t: TaskView) -> bool {
    exists|i: int, j: int|
        #![trigger items[i], items[j]]
        0 <= i < items.len() && 0 <= j < items.len() && transformer::is_opener(items[i])
            && transformer::is_event(items[j]) && transformer::prop(items[i], transformer::uid_key())
            == Some(t.uid) && transformer::next_uid_of(t.uid) == transformer::prop(
            items[j],
            transformer::uid_key(),
        ) && items[i].start == Some(t.start) && items[j].end == Some(t.end)
}

proof fn lemma_pairs_made(items: Seq<ItemView>, n: nat)
    requires
        n <= items.len(),
        pairing_is_some(items, n),
    ensures
        forall|k: int|
            0 <= k < transformer::pairing(items, n).unwrap().tasks.len() ==> made_from_pair(
                items,
                #[trigger] transformer::pairing(items, n).unwrap().tasks[k],
            ),
    decreases n,
{
    if n > 0 {
        lemma_pairing_prefix_some(items, (n - 1) as nat, n);
        lemma_pairs_made(items, (n - 1) as nat);
        let acc = transformer::pairing(items, (n - 1) as nat).unwrap();
        let cur = transformer::pairing(items, n).unwrap();
        let i = n - 1;
        let item = items[i];
        if cur.tasks != acc.tasks {
            let u = transformer::prop(item, transformer::uid_key()).unwrap();
            let nu = transformer::next_uid_of(u).unwrap();
            let j = transformer::partner_from(items, nu, 0)->At_0;
            transformer::lemma_partner_found(items, nu, 0, j);
            let t = transformer::task_from(item, item.start.unwrap(), items[j].end.unwrap());
            assert(cur.tasks == acc.tasks.push(t));
            assert(made_from_pair(items, t)) by {
                assert(items[i] == item && items[j] == items[j]);
            }
            assert forall|k: int| 0 <= k < cur.tasks.len() implies made_from_pair(
                items,
                #[trigger] cur.tasks[k],
            ) by {
                if k < acc.tasks.len() {
                    assert(cur.tasks[k] == acc.tasks[k]);
                }
            }
        }
    }
}

/// Each to-do item made in the pass over openers comes from an event whose
/// summary contains "odpre" and the event whose UID follows the opener's: it
/// carries the opener's UID, starts when the opener starts, and ends when
/// the closer ends.
pub proof fn law_pairs_join_opener_and_closer(items: Seq<ItemView>, p: Pairing, k: int)
    requires
        transformer::pairing(items, items.len()) == Some(p),
        0 <= k < p.tasks.len(),
    ensures
        made_from_pair(items, p.tasks[k]),
{
    lemma_pairs_made(items, items.len());
    assert(transformer::pairing(items, items.len()).unwrap().tasks[k] == p.tasks[k]);
}

proof fn lemma_remaining_covers(
    items: Seq<ItemView>,
    consumed: Set<Seq<char>>,
    n: nat,
    tasks: Seq<TaskView>,
    ts: Seq<TaskView>,
)
    requires
        n <= items.len(),
        transformer::remaining(items, consumed, n, tasks) == Outcome::Done(ts),
    ensures
        forall|i: int|
            0 <= i < n && transformer::is_event(#[trigger] items[i]) ==> (transformer::prop(
                items[i],
                transformer::uid_key(),
            ) matches Some(u) && (consumed.contains(u) || exists|k: int|
                0 <= k < ts.len() && ts[k].uid == u)),
    decreases n,
{
    if n > 0 {
        let prev = transformer::remaining(items, consumed, (n - 1) as nat, tasks);
        if let Outcome::Done(ps) = prev {
            lemma_remaining_covers(items, consumed, (n - 1) as nat, tasks, ps);
            let item = items[n - 1];
            assert forall|i: int|
                0 <= i < n && transformer::is_event(#[trigger] items[i]) implies (transformer::prop(
                items[i],
                transformer::uid_key(),
            ) matches Some(u) && (consumed.contains(u) || exists|k: int|
                0 <= k < ts.len() && ts[k].uid == u)) by {
                let u = transformer::prop(items[i], transformer::uid_key()).unwrap();
                if i < n - 1 {
                    if !consumed.contains(u) {
                        let k = choose|k: int| 0 <= k < ps.len() && ps[k].uid == u;
                        if ts != ps {
                            let d = transformer::date_from_text(
                                transformer::prop(item, transformer::last_modified_key()).unwrap(),
                            ).unwrap();
                            assert(ts == ps.push(transformer::task_from(item, d, item.end.unwrap())));
                        }
                        assert(ts[k] == ps[k]);
                    }
                } else if !consumed.contains(u) {
                    let d = transformer::date_from_text(
                        transformer::prop(item, transformer::last_modified_key()).unwrap(),
                    ).unwrap();
                    assert(ts == ps.push(transformer::task_from(item, d, item.end.unwrap())));
                    assert(ts[ps.len() as int].uid == u);
                }
            }
        } else {
            transformer::lemma_remaining_stops(items, consumed, tasks, (n - 1) as nat, n);
        }
    }
}

/// Every event of the calendar is accounted for: it has a UID, and either
/// that UID was used by a pair, or a to-do item carries it.
pub proof fn law_every_event_accounted_for(items: Seq<ItemView>, p: Pairing, ts: Seq<TaskView>, i: int)
    requires
        transformer::pairing(items, items.len()) == Some(p),
        transformer::plan(items) == Outcome::Done(ts),
        0 <= i < items.len(),
        transformer::is_event(items[i]),
    ensures
        transformer::prop(items[i], transformer::uid_key()) matches Some(u) && (p.consumed.contains(u)
            || exists|k: int| 0 <= k < ts.len() && ts[k].uid == u),
{
    lemma_remaining_covers(items, p.consumed, items.len(), p.tasks, ts);
}

proof fn lemma_remaining_fails(
    items: Seq<ItemView>,
    consumed: Set<Seq<char>>,
    n: nat,
    tasks: Seq<TaskView>,
    m: Seq<char>,
)
    requires
        transformer::remaining(items, consumed, n, tasks) == Outcome::Fails(m),
    ensures
        m == transformer::not_a_date_message(),
    decreases n,
{
    if n > 0 {
        if let Outcome::Fails(pm) = transformer::remaining(items, consumed, (n - 1) as nat, tasks) {
            lemma_remaining_fails(items, consumed, (n - 1) as nat, tasks, pm);
        }
    }
}

/// Turning iCalendar text into to-do items fails only where the text does
/// not parse, with the parser's message, or where an unpaired event's
/// `LAST-MODIFIED` value is no date, with the message that says so.
pub proof fn law_failures(text: Seq<char>, m: Seq<char>)
    requires
        transformer::transform_outcome(text) == Outcome::Fails(m),
    ensures
        ical::ics_parse(text) == Some(Err::<Seq<ItemView>, Seq<char>>(m)) || m
            == transformer::not_a_date_message(),
{
    if let Some(Ok(items)) = ical::ics_parse(text) {
        let p = transformer::pairing(items, items.len()).unwrap();
        lemma_remaining_fails(items, p.consumed, items.len(), p.tasks, m);
    }
}

/// The event at index `j` is the first event of `items` whose UID is
/// `target`.
pub open spec fn first_event_with_uid(items: Seq<ItemView>, target: Seq<char>, j: int) -> bool {
    &&& 0 <= j < items.len()
    &&& transformer::is_event(items[j])
    &&& transformer::prop(items[j], transformer::uid_key()) == Some(target)
    &&& forall|k: int|
        0 <= k < j ==> !(transformer::is_event(#[trigger] items[k]) && transformer::prop(
            items[k],
            transformer::uid_key(),
        ) == Some(target))
}

/// The closer of the component at index `i`: the first event whose UID is
/// the one that follows its UID.
pub open spec fn closer_of(items: Seq<ItemView>, i: int) -> Option<int> {
    match transformer::prop(items[i], transformer::uid_key()) {
        Some(u) => match transformer::next_uid_of(u) {
            Some(nu) => if exists|j: int| first_event_with_uid(items, nu, j) {
                Some(choose|j: int| first_event_with_uid(items, nu, j))
            } else {
                None
            },
            None => None,
        },
        None => None,
    }
}

/// The component at index `i` opens an assignment and has a closer.
pub open spec fn is_paired(items: Seq<ItemView>, i: int) -> bool {
    transformer::is_opener(items[i]) && closer_of(items, i) is Some
}

/// The to-do item of the pair that the component at index `i` opens: it
/// starts when the opener starts and ends when the closer ends.
pub open spec fn pair_task(items: Seq<ItemView>, i: int) -> TaskView {
    transformer::task_from(
        items[i],
        items[i].start.unwrap(),
        items[closer_of(items, i).unwrap()].end.unwrap(),
    )
}

/// The first `n` components, kept where they open a pair and mapped to the
/// to-do item of that pair: one item for each such opener, in order.
pub open spec fn pair_tasks(items: Seq<ItemView>, n: nat) -> Seq<TaskView>
    decreases n,
{
    if n == 0 {
        Seq::empty()
    } else if is_paired(items, n - 1) {
        pair_tasks(items, (n - 1) as nat).push(pair_task(items, n - 1))
    } else {
        pair_tasks(items, (n - 1) as nat)
    }
}

/// The UIDs of the openers among the first `n` components that have a
/// closer, and the UIDs of those closers.
pub open spec fn paired_uids(items: Seq<ItemView>, n: nat) -> Set<Seq<char>> {
    Set::new(
        |x: Seq<char>|
            exists|i: int|
                0 <= i < n && #[trigger] is_paired(items, i) && (transformer::prop(
                    items[i],
                    transformer::uid_key(),
                ) == Some(x) || transformer::next_uid_of(
                    transformer::prop(items[i], transformer::uid_key()).unwrap(),
                ) == Some(x)),
    )
}

/// The to-do item that the component at index `k` becomes on its own: an
/// event whose UID is not in `used`, starting at the date of its
/// `LAST-MODIFIED` value and due when it ends.
pub open spec fn own_task(items: Seq<ItemView>, used: Set<Seq<char>>, k: int) -> Option<TaskView> {
    let item = items[k];
    match transformer::prop(item, transformer::uid_key()) {
        Some(u) => if transformer::is_event(item) && !used.contains(u) {
            Some(
                transformer::task_from(
                    item,
                    transformer::date_from_text(
                        transformer::prop(item, transformer::last_modified_key()).unwrap(),
                    ).unwrap(),
                    item.end.unwrap(),
                ),
            )
        } else {
            None
        },
        None => None,
    }
}

/// The first `n` components, kept where they become a to-do item on their
/// own and mapped to that item, in order.
pub open spec fn own_tasks(items: Seq<ItemView>, used: Set<Seq<char>>, n: nat) -> Seq<TaskView>
    decreases n,
{
    if n == 0 {
        Seq::empty()
    } else {
        match own_task(items, used, n - 1) {
            Some(t) => own_tasks(items, used, (n - 1) as nat).push(t),
            None => own_tasks(items, used, (n - 1) as nat),
        }
    }
}

/// The to-do items of a calendar: one for each opener that has a closer, in
/// the order of the openers, then one for each event whose UID no pair used,
/// in the order of the events.
pub open spec fn tasks_of(items: Seq<ItemView>) -> Seq<TaskView> {
    pair_tasks(items, items.len()) + own_tasks(items, paired_uids(items, items.len()), items.len())
}

proof fn lemma_partner_is_first(items: Seq<ItemView>, target: Seq<char>, j0: int)
    requires
        0 <= j0,
        forall|k: int|
            0 <= k < j0 ==> !(transformer::is_event(#[trigger] items[k]) && transformer::prop(
                items[k],
                transformer::uid_key(),
            ) == Some(target)),
    ensures
        transformer::partner_from(items, target, j0) matches transformer::Partner::At(j)
            ==> first_event_with_uid(items, target, j),
        transformer::partner_from(items, target, j0) is Absent ==> forall|k: int|
            0 <= k < items.len() ==> !(transformer::is_event(#[trigger] items[k]) && transformer::prop(
                items[k],
                transformer::uid_key(),
            ) == Some(target)),
    decreases items.len() - j0,
{
    if j0 < items.len() {
        if !(transformer::is_event(items[j0]) && transformer::prop(items[j0], transformer::uid_key())
            == Some(target)) {
            lemma_partner_is_first(items, target, j0 + 1);
        }
    }
}

proof fn lemma_first_unique(items: Seq<ItemView>, target: Seq<char>, j: int, j2: int)
    requires
        first_event_with_uid(items, target, j),
        first_event_with_uid(items, target, j2),
    ensures
        j == j2,
{
    if j < j2 {
        assert(items[j] == items[j]);
    } else if j2 < j {
        assert(items[j2] == items[j2]);
    }
}

proof fn lemma_pairing_is_filter_map(items: Seq<ItemView>, n: nat)
    requires
        n <= items.len(),
        pairing_is_some(items, n),
    ensures
        transformer::pairing(items, n).unwrap().tasks == pair_tasks(items, n),
        transformer::pairing(items, n).unwrap().consumed == paired_uids(items, n),
    decreases n,
{
    if n == 0 {
        assert(paired_uids(items, 0) =~= Set::empty());
    } else {
        lemma_pairing_prefix_some(items, (n - 1) as nat, n);
        lemma_pairing_is_filter_map(items, (n - 1) as nat);
        let acc = transformer::pairing(items, (n - 1) as nat).unwrap();
        let cur = transformer::pairing(items, n).unwrap();
        let i = n - 1;
        let item = items[i];
        let m = (n - 1) as nat;
        if is_paired(items, i) {
            let u = transformer::prop(item, transformer::uid_key()).unwrap();
            let nu = transformer::next_uid_of(u).unwrap();
            let j = closer_of(items, i).unwrap();
            lemma_partner_is_first(items, nu, 0);
            match transformer::partner_from(items, nu, 0) {
                transformer::Partner::At(j2) => {
                    lemma_first_unique(items, nu, j, j2);
                },
                _ => {},
            }
            assert(cur.tasks == acc.tasks.push(pair_task(items, i)));
            assert(cur.consumed == acc.consumed.insert(u).insert(nu));
            assert forall|x: Seq<char>| #[trigger]
                paired_uids(items, n).contains(x) <==> cur.consumed.contains(x) by {
                if paired_uids(items, n).contains(x) {
                    let w = choose|w: int|
                        0 <= w < n && #[trigger] is_paired(items, w) && (transformer::prop(
                            items[w],
                            transformer::uid_key(),
                        ) == Some(x) || transformer::next_uid_of(
                            transformer::prop(items[w], transformer::uid_key()).unwrap(),
                        ) == Some(x));
                    if w < i {
                        assert(paired_uids(items, m).contains(x));
                    }
                }
                if acc.consumed.contains(x) {
                    assert(paired_uids(items, m).contains(x));
                    let w = choose|w: int|
                        0 <= w < m && #[trigger] is_paired(items, w) && (transformer::prop(
                            items[w],
                            transformer::uid_key(),
                        ) == Some(x) || transformer::next_uid_of(
                            transformer::prop(items[w], transformer::uid_key()).unwrap(),
                        ) == Some(x));
                    assert(is_paired(items, w));
                }
                if x == u || x == nu {
                    assert(is_paired(items, i));
                }
            }
            assert(cur.consumed =~= paired_uids(items, n));
        } else {
            if transformer::is_opener(item) {
                let u = transformer::prop(item, transformer::uid_key()).unwrap();
                let nu = transformer::next_uid_of(u).unwrap();
                lemma_partner_is_first(items, nu, 0);
                match transformer::partner_from(items, nu, 0) {
                    transformer::Partner::At(j2) => {
                        assert(first_event_with_uid(items, nu, j2));
                    },
                    _ => {},
                }
            }
            assert(cur == acc);
            assert forall|x: Seq<char>| #[trigger]
                paired_uids(items, n).contains(x) <==> paired_uids(items, m).contains(x) by {
                if paired_uids(items, n).contains(x) {
                    let w = choose|w: int|
                        0 <= w < n && #[trigger] is_paired(items, w) && (transformer::prop(
                            items[w],
                            transformer::uid_key(),
                        ) == Some(x) || transformer::next_uid_of(
                            transformer::prop(items[w], transformer::uid_key()).unwrap(),
                        ) == Some(x));
                    assert(w != i);
                }
                if paired_uids(items, m).contains(x) {
                    let w = choose|w: int|
                        0 <= w < m && #[trigger] is_paired(items, w) && (transformer::prop(
                            items[w],
                            transformer::uid_key(),
                        ) == Some(x) || transformer::next_uid_of(
                            transformer::prop(items[w], transformer::uid_key()).unwrap(),
                        ) == Some(x));
                    assert(is_paired(items, w));
                }
            }
            assert(paired_uids(items, n) =~= paired_uids(items, m));
        }
    }
}

proof fn lemma_remaining_is_filter_map(
    items: Seq<ItemView>,
    used: Set<Seq<char>>,
    n: nat,
    tasks: Seq<TaskView>,
    ts: Seq<TaskView>,
)
    requires
        n <= items.len(),
        transformer::remaining(items, used, n, tasks) == Outcome::Done(ts),
    ensures
        ts == tasks + own_tasks(items, used, n),
    decreases n,
{
    if n == 0 {
        assert(tasks + own_tasks(items, used, 0) =~= tasks);
    } else {
        let m = (n - 1) as nat;
        let prev = transformer::remaining(items, used, m, tasks);
        if let Outcome::Done(ps) = prev {
            lemma_remaining_is_filter_map(items, used, m, tasks, ps);
            match own_task(items, used, n - 1) {
                Some(t) => {
                    assert(ts == ps.push(t));
                    assert(ts =~= tasks + own_tasks(items, used, n));
                },
                None => {
                    assert(ts == ps);
                },
            }
        } else {
            transformer::lemma_remaining_stops(items, used, tasks, m, n);
        }
    }
}

/// Turning a calendar into to-do items, where it succeeds, gives exactly the
/// items that [`tasks_of`] lists: one for each opener that has a closer, in
/// the order of the openers, then one for each event whose UID no pair used,
/// in the order of the events.
pub proof fn law_tasks_are_filter_map(items: Seq<ItemView>, ts: Seq<TaskView>)
    requires
        transformer::plan(items) == Outcome::Done(ts),
    ensures
        ts == tasks_of(items),
{
    lemma_pairing_is_filter_map(items, items.len());
    let p = transformer::pairing(items, items.len()).unwrap();
    lemma_remaining_is_filter_map(items, p.consumed, items.len(), p.tasks, ts);
}

proof fn lemma_pair_position(items: Seq<ItemView>, i: int, n: nat)
    requires
        0 <= i < n,
        is_paired(items, i),
    ensures
        pair_tasks(items, (i + 1) as nat).len() <= pair_tasks(items, n).len(),
        pair_tasks(items, n)[pair_tasks(items, i as nat).len() as int] == pair_task(items, i),
    decreases n,
{
    if n > i + 1 {
        lemma_pair_position(items, i, (n - 1) as nat);
    }
}

proof fn lemma_pair_count_grows(items: Seq<ItemView>, k: nat, n: nat)
    requires
        k <= n,
    ensures
        pair_tasks(items, k).len() <= pair_tasks(items, n).len(),
    decreases n,
{
    if k < n {
        lemma_pair_count_grows(items, k, (n - 1) as nat);
    }
}

/// Each opener that has a closer yields exactly one to-do item: the item
/// of its pair stands at the position given by the number of such openers
/// before it, so two such openers never share a position.
pub proof fn law_one_task_per_pair(items: Seq<ItemView>, ts: Seq<TaskView>, i: int, i2: int)
    requires
        transformer::plan(items) == Outcome::Done(ts),
        0 <= i < i2 < items.len(),
        is_paired(items, i),
        is_paired(items, i2),
    ensures
        ts[pair_tasks(items, i as nat).len() as int] == pair_task(items, i),
        ts[pair_tasks(items, i2 as nat).len() as int] == pair_task(items, i2),
        pair_tasks(items, i as nat).len() < pair_tasks(items, i2 as nat).len(),
{
    law_tasks_are_filter_map(items, ts);
    let n = items.len();
    lemma_pair_position(items, i, n);
    lemma_pair_position(items, i2, n);
    lemma_pair_count_grows(items, (i + 1) as nat, i2 as nat);
    let pt = pair_tasks(items, n);
    let ot = own_tasks(items, paired_uids(items, n), n);
    assert(ts[pair_tasks(items, i as nat).len() as int] == pt[pair_tasks(items, i as nat).len() as int]);
    assert(ts[pair_tasks(items, i2 as nat).len() as int] == pt[pair_tasks(items, i2 as nat).len() as int]);
}

/// A `LAST-MODIFIED` value that chrono reads as a UTC time stamp
/// (`YYYYMMDDTHHMMSSZ`, seconds included) gives exactly that UTC date-time,
/// before any reading as a date or a floating date-time is tried.
pub proof fn law_utc_stamp_read_first(val: Seq<char>)
    requires
        dates::chrono_utc_date_time(val, dates::utc_stamp_format()) is Some,
    ensures
        transformer::date_from_text(val) == dates::chrono_utc_date_time(val, dates::utc_stamp_format()),
{
}

/// An event whose summary holds "odpre" in any ASCII case, at any place, is
/// an opener; and only such events are.
pub proof fn law_opener_word_anywhere(item: ItemView, summary: Seq<char>, k: int)
    requires
        transformer::is_event(item),
        transformer::prop(item, transformer::summary_key()) == Some(summary),
        0 <= k,
        k + 5 <= summary.len(),
        text::lower(summary).subrange(k, k + 5) == "odpre"@,
    ensures
        transformer::is_opener(item),
{
    reveal_strlit("odpre");
    text::law_contains_wherever_found(text::lower(summary), "odpre"@, k);
}

/// An opener is an event whose lower-cased summary holds "odpre" at some
/// place.
pub proof fn law_opener_has_word(item: ItemView)
    requires
        transformer::is_opener(item),
    ensures
        transformer::is_event(item),
        transformer::prop(item, transformer::summary_key()) matches Some(summary) && exists|k: int|
            0 <= k && k + 5 <= summary.len() && #[trigger] text::lower(summary).subrange(k, k + 5)
                == "odpre"@,
{
    reveal_strlit("odpre");
    let summary = transformer::prop(item, transformer::summary_key()).unwrap();
    text::law_contains_only_where_found(text::lower(summary), "odpre"@);
}

} // verus!
