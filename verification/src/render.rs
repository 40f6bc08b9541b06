//! Writing a calendar of to-do items out as iCalendar text.

use vstd::prelude::*;

use crate::ical::{class_property, due_property, end_property, new_property, start_property};
use crate::ical::{escape_newlines, ics_class_property, ics_due_property, ics_end_property};
use crate::ical::{ics_start_property, ics_todo_component_text, todo_component_text};
use crate::model::{prop_views, Prop, PropView, Task, TaskCalendar, TaskView};
use crate::text::{decimal, decimal_string};

verus! {

/// The lines that `icalendar` writes before the components of a new
/// calendar: `BEGIN:VCALENDAR` and the properties `VERSION`, `PRODID` and
/// `CALSCALE` that `Calendar::new` sets.
pub open spec fn calendar_header() -> Seq<char> {
    "BEGIN:VCALENDAR\r\nVERSION:2.0\r\nPRODID:ICALENDAR-RS\r\nCALSCALE:GREGORIAN\r\n"@
}

/// The line that ends a calendar.
pub open spec fn calendar_footer() -> Seq<char> {
    "END:VCALENDAR\r\n"@
}

/// A property without parameters, as `Property::new` makes it.
pub open spec fn text_prop(name: Seq<char>, value: Seq<char>) -> PropView {
    PropView { name, params: Seq::empty(), value: escape_newlines(value) }
}

/// The properties of the `VTODO` written for a to-do item, in the order they
/// are set: summary, description, start, end, due time, UID, time stamp and
/// class, then the completion time and percentage where the item has them.
pub open spec fn task_props(t: TaskView) -> Seq<PropView> {
    let base = seq![
        text_prop("SUMMARY"@, t.summary),
        text_prop("DESCRIPTION"@, t.description),
        ics_start_property(t.start),
        ics_end_property(t.end),
        ics_due_property(t.due),
        text_prop("UID"@, t.uid),
        text_prop("DTSTAMP"@, t.timestamp),
        ics_class_property(t.class),
    ];
    let with_completed = match t.completed {
        Some(c) => base.push(text_prop("COMPLETED"@, c)),
        None => base,
    };
    match t.percent_complete {
        Some(p) => with_completed.push(text_prop("PERCENT-COMPLETE"@, decimal(p as nat))),
        None => with_completed,
    }
}

/// The multi-properties of the `VTODO` written for a to-do item: its
/// categories.
pub open spec fn task_multi_props(t: TaskView) -> Seq<PropView> {
    seq![text_prop("CATEGORIES"@, t.categories)]
}

/// The iCalendar text of the `VTODO` written for a to-do item.
pub open spec fn todo_text_of(t: TaskView) -> Seq<char> {
    ics_todo_component_text(task_props(t), task_multi_props(t))
}

/// The properties and the multi-properties of the `VTODO` written for a
/// to-do item.
pub fn todo_properties(t: &Task) -> (r: (Vec<Prop>, Vec<Prop>))
    ensures
        prop_views(r.0@) == task_props(t@),
        prop_views(r.1@) == task_multi_props(t@),
        exists|i: int| 0 <= i < r.0@.len() && (#[trigger] r.0@[i])@.name == "DTSTAMP"@,
        exists|i: int| 0 <= i < r.0@.len() && (#[trigger] r.0@[i])@.name == "UID"@,
        forall|i: int| 0 <= i < r.0@.len() ==> (#[trigger] r.0@[i])@.params.len() <= 1,
        forall|i: int| 0 <= i < r.1@.len() ==> (#[trigger] r.1@[i])@.params.len() <= 1,
{
    let mut props: Vec<Prop> = Vec::new();
    props.push(new_property("SUMMARY", t.summary.as_str()));
    props.push(new_property("DESCRIPTION", t.description.as_str()));
    props.push(start_property(&t.start));
    props.push(end_property(&t.end));
    props.push(due_property(&t.due));
    props.push(new_property("UID", t.uid.as_str()));
    props.push(new_property("DTSTAMP", t.timestamp.as_str()));
    props.push(class_property(t.class));
    let ghost base = prop_views(props@);
    assert(base =~= seq![
        text_prop("SUMMARY"@, t@.summary),
        text_prop("DESCRIPTION"@, t@.description),
        ics_start_property(t@.start),
        ics_end_property(t@.end),
        ics_due_property(t@.due),
        text_prop("UID"@, t@.uid),
        text_prop("DTSTAMP"@, t@.timestamp),
        ics_class_property(t@.class),
    ]);
    assert(props@[5]@.name == "UID"@);
    assert(props@[6]@.name == "DTSTAMP"@);
    if let Some(c) = &t.completed {
        let ghost before = props@;
        props.push(new_property("COMPLETED", c.as_str()));
        assert(prop_views(props@) =~= prop_views(before).push(text_prop("COMPLETED"@, c@)));
    }
    if let Some(p) = t.percent_complete {
        let ghost before = props@;
        let digits = decimal_string(p as usize);
        props.push(new_property("PERCENT-COMPLETE", digits.as_str()));
        assert(prop_views(props@) =~= prop_views(before).push(text_prop("PERCENT-COMPLETE"@, decimal(p as nat))));
    }
    assert(props@[5]@.name == "UID"@);
    assert(props@[6]@.name == "DTSTAMP"@);
    let mut multi: Vec<Prop> = Vec::new();
    multi.push(new_property("CATEGORIES", t.categories.as_str()));
    assert(prop_views(multi@) =~= task_multi_props(t@));
    let r = (props, multi);
    assert(r.0@[5]@.name == "UID"@ && r.0@[6]@.name == "DTSTAMP"@);
    assert(exists|i: int| 0 <= i < r.0@.len() && (#[trigger] r.0@[i])@.name == "UID"@);
    r
}

/// The texts of the to-do items, one after the other.
pub open spec fn todo_texts(ts: Seq<TaskView>) -> Seq<char>
    decreases ts.len(),
{
    if ts.len() == 0 {
        Seq::empty()
    } else {
        todo_texts(ts.drop_last()) + todo_text_of(ts.last())
    }
}

/// The iCalendar text of a new calendar that holds these to-do items.
pub open spec fn calendar_text(ts: Seq<TaskView>) -> Seq<char> {
    calendar_header() + todo_texts(ts) + calendar_footer()
}

impl TaskCalendar {
    /// The number of to-do items.
    pub fn len(&self) -> (n: usize)
        ensures
            n == self@.len(),
    {
        self.tasks.len()
    }

    /// Writes the calendar as iCalendar text, as `icalendar` writes a new
    /// calendar into which these to-do items were pushed in order.
    pub fn to_ics(&self) -> (r: String)
        ensures
            r@ == calendar_text(self@),
    {
        let mut r = String::from_str(
            "BEGIN:VCALENDAR\r\nVERSION:2.0\r\nPRODID:ICALENDAR-RS\r\nCALSCALE:GREGORIAN\r\n",
        );
        let mut i: usize = 0;
        while i < self.tasks.len()
            invariant
                i <= self.tasks.len(),
                r@ == calendar_header() + todo_texts(self@.take(i as int)),
            decreases self.tasks.len() - i,
        {
            let (props, multi) = todo_properties(&self.tasks[i]);
            let t = todo_component_text(&props, &multi);
            r.append(t.as_str());
            assert(self@.take(i + 1).drop_last() =~= self@.take(i as int));
            assert(self@.take(i + 1).last() == self.tasks@[i as int]@);
            i = i + 1;
        }
        assert(self@.take(i as int) =~= self@);
        r.append("END:VCALENDAR\r\n");
        r
    }
}

/// The text of a single to-do item is its `VTODO`, whatever its completion
/// state.
pub proof fn law_single_item_written(t: TaskView)
    ensures
        todo_texts(seq![t]) == todo_text_of(t),
{
    let one = seq![t];
    assert(one.drop_last() =~= Seq::<TaskView>::empty());
    assert(todo_texts(one.drop_last()) == Seq::<char>::empty());
    assert(one.last() == t);
    assert(todo_texts(one) == todo_texts(one.drop_last()) + todo_text_of(one.last()));
    assert(Seq::<char>::empty() + todo_text_of(t) =~= todo_text_of(t));
}

/// Writing two runs of to-do items one after the other gives the text of
/// the first run followed by the text of the second.
pub proof fn law_items_written_in_order(a: Seq<TaskView>, b: Seq<TaskView>)
    ensures
        todo_texts(a + b) == todo_texts(a) + todo_texts(b),
    decreases b.len(),
{
    if b.len() == 0 {
        assert(a + b =~= a);
        assert(todo_texts(a) + Seq::<char>::empty() =~= todo_texts(a));
    } else {
        law_items_written_in_order(a, b.drop_last());
        assert((a + b).drop_last() =~= a + b.drop_last());
        assert((a + b).last() == b.last());
        assert(todo_texts(a + b) =~= todo_texts(a) + todo_texts(b));
    }
}

/// Every to-do item of a calendar is written out: the text of the `i`-th
/// item stands right after the header and the texts of the items before it,
/// whatever the completion state of any item.
pub proof fn law_every_item_written(ts: Seq<TaskView>, i: int)
    requires
        0 <= i < ts.len(),
    ensures
        ({
            let o = (calendar_header().len() + todo_texts(ts.take(i)).len()) as int;
            &&& o + todo_text_of(ts[i]).len() <= calendar_text(ts).len()
            &&& calendar_text(ts).subrange(o, o + todo_text_of(ts[i]).len() as int) == todo_text_of(ts[i])
        }),
{
    let before = ts.take(i);
    let rest = ts.skip(i + 1);
    assert(ts =~= before + seq![ts[i]] + rest);
    law_items_written_in_order(before + seq![ts[i]], rest);
    law_items_written_in_order(before, seq![ts[i]]);
    law_single_item_written(ts[i]);
    let h = calendar_header();
    let x = todo_texts(before);
    let y = todo_text_of(ts[i]);
    let z = todo_texts(rest);
    assert(calendar_text(ts) == h + (x + y + z) + calendar_footer());
    let o = (h.len() + x.len()) as int;
    assert(calendar_text(ts).subrange(o, o + y.len() as int) =~= y);
}

} // verus!
