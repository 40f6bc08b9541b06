//! The calls into the `icalendar` crate: parsing a calendar, reading its
//! components, and writing a to-do item out as iCalendar text.

use vstd::prelude::*;

use crate::model::{prop_views, ComponentKind, ItemView, Prop, PropView};
use icalendar::{Calendar, CalendarComponent, Class, Component, DatePerhapsTime, EventLike, Todo};

verus! {

/// The components that a calendar holds, in order, each as this library
/// reads it (see [`ItemView`]).
pub uninterp spec fn calendar_items(c: Calendar) -> Seq<ItemView>;

/// What `Calendar::from_str` gives for a text: the components of the parsed
/// calendar, or the parser's error message; `None` for a text on which the
/// parser panics (a text that ends inside a component is one).
pub uninterp spec fn ics_parse(text: Seq<char>) -> Option<Result<Seq<ItemView>, Seq<char>>>;

/// Parses iCalendar text with `<icalendar::Calendar as FromStr>::from_str`.
/// The parser panics on some texts (it slices the text where a property
/// name is expected without checking its length, so texts that end inside a
/// component are among them); `requires` leaves those texts out through the
/// name, since which texts they are is not stated.
/// The contract claims only that the result is the named parse of the text:
/// the components of the calendar on success, the error message otherwise.
#[verifier::external_body]
pub(crate) fn calendar_from_str(text: &str) -> (r: Result<Calendar, String>)
    requires
        ics_parse(text@) is Some,
    ensures
        match r {
            Ok(c) => ics_parse(text@) == Some(Ok::<Seq<ItemView>, Seq<char>>(calendar_items(c))),
            Err(m) => ics_parse(text@) == Some(Err::<Seq<ItemView>, Seq<char>>(m@)),
        },
{
    <Calendar as std::str::FromStr>::from_str(text)
}

/// The number of components of a calendar (`<[CalendarComponent]>::len`
/// through `Calendar`'s `Deref`).
#[verifier::external_body]
pub(crate) fn calendar_len(cal: &Calendar) -> (n: usize)
    ensures
        n == calendar_items(*cal).len(),
{
    cal.len()
}

/// Tells the kind of the `i`-th component of a calendar apart: event, to-do,
/// or anything else.
#[verifier::external_body]
pub(crate) fn item_kind(cal: &Calendar, i: usize) -> (k: ComponentKind)
    requires
        i < calendar_items(*cal).len(),
    ensures
        k == calendar_items(*cal)[i as int].kind,
{
    match &cal[i] {
        CalendarComponent::Event(_) => ComponentKind::Event,
        CalendarComponent::Todo(_) => ComponentKind::Todo,
        _ => ComponentKind::Other,
    }
}

/// The raw value of the property `key` of the `i`-th component, read with
/// `Component::property_value` of an event or a to-do; no value for any
/// other kind of component.
#[verifier::external_body]
pub(crate) fn item_property(cal: &Calendar, i: usize, key: &str) -> (r: Option<String>)
    requires
        i < calendar_items(*cal).len(),
    ensures
        match r {
            Some(v) => calendar_items(*cal)[i as int].props.contains_key(key@)
                && calendar_items(*cal)[i as int].props[key@] == v@,
            None => !calendar_items(*cal)[i as int].props.contains_key(key@),
        },
{
    match &cal[i] {
        CalendarComponent::Event(e) => e.property_value(key).map(String::from),
        CalendarComponent::Todo(t) => t.property_value(key).map(String::from),
        _ => None,
    }
}

/// `Component::get_start` of the `i`-th component, if it is an event or a to-do.
#[verifier::external_body]
pub(crate) fn item_start(cal: &Calendar, i: usize) -> (r: Option<DatePerhapsTime>)
    requires
        i < calendar_items(*cal).len(),
    ensures
        r == calendar_items(*cal)[i as int].start,
{
    match &cal[i] {
        CalendarComponent::Event(e) => e.get_start(),
        CalendarComponent::Todo(t) => t.get_start(),
        _ => None,
    }
}

/// `Component::get_end` of the `i`-th component, if it is an event or a to-do.
#[verifier::external_body]
pub(crate) fn item_end(cal: &Calendar, i: usize) -> (r: Option<DatePerhapsTime>)
    requires
        i < calendar_items(*cal).len(),
    ensures
        r == calendar_items(*cal)[i as int].end,
{
    match &cal[i] {
        CalendarComponent::Event(e) => e.get_end(),
        CalendarComponent::Todo(t) => t.get_end(),
        _ => None,
    }
}

/// `Component::get_timestamp` of the `i`-th component, if it is an event or
/// a to-do, written out as `Component::timestamp` writes a `DTSTAMP` value.
#[verifier::external_body]
pub(crate) fn item_timestamp(cal: &Calendar, i: usize) -> (r: Option<String>)
    requires
        i < calendar_items(*cal).len(),
    ensures
        match r {
            Some(v) => calendar_items(*cal)[i as int].timestamp == Some(v@),
            None => calendar_items(*cal)[i as int].timestamp is None,
        },
{
    match &cal[i] {
        CalendarComponent::Event(e) => e.get_timestamp(),
        CalendarComponent::Todo(t) => t.get_timestamp(),
        _ => None,
    }.and_then(|dt| Todo::new().timestamp(dt).property_value("DTSTAMP").map(String::from))
}

/// `Component::get_class` of the `i`-th component, if it is an event or a to-do.
#[verifier::external_body]
pub(crate) fn item_class(cal: &Calendar, i: usize) -> (r: Option<Class>)
    requires
        i < calendar_items(*cal).len(),
    ensures
        r == calendar_items(*cal)[i as int].class,
{
    match &cal[i] {
        CalendarComponent::Event(e) => e.get_class(),
        CalendarComponent::Todo(t) => t.get_class(),
        _ => None,
    }
}

/// `value` with each line feed written as `\n`, as `Property::new` stores a
/// value.
pub open spec fn escape_newlines(value: Seq<char>) -> Seq<char>
    decreases value.len(),
{
    if value.len() == 0 {
        Seq::empty()
    } else {
        escape_newlines(value.drop_last()) + if value.last() == '\n' {
            seq!['\\', 'n']
        } else {
            seq![value.last()]
        }
    }
}

/// The `DTSTART` property that `EventLike::starts` sets for a date.
pub uninterp spec fn ics_start_property(d: DatePerhapsTime) -> PropView;

/// The `DTEND` property that `EventLike::ends` sets for a date.
pub uninterp spec fn ics_end_property(d: DatePerhapsTime) -> PropView;

/// The `DUE` property that `Todo::due` sets for a date.
pub uninterp spec fn ics_due_property(d: DatePerhapsTime) -> PropView;

/// The `CLASS` property that `Component::class` sets for a classification.
pub uninterp spec fn ics_class_property(c: Class) -> PropView;

/// The text of the `VTODO` component that `Component::to_string` writes for
/// a to-do that holds these properties and multi-properties, appended in
/// order.
pub uninterp spec fn ics_todo_component_text(props: Seq<PropView>, multi: Seq<PropView>) -> Seq<char>;

/// A property made with `Property::new(name, value)`: no parameters, and the
/// value with its line feeds written as `\n`.
#[verifier::external_body]
pub(crate) fn new_property(name: &str, value: &str) -> (p: Prop)
    ensures
        p@ == (PropView { name: name@, params: Seq::empty(), value: escape_newlines(value@) }),
{
    let q = icalendar::Property::new(name, value);
    let params = q.params().values().map(|x| (x.key().to_string(), x.value().to_string())).collect();
    Prop { name: q.key().to_string(), params, value: q.value().to_string() }
}

/// The property that `EventLike::starts` puts into an empty `Todo` for a
/// date.  The contract claims that it is named `DTSTART` and has at most one
/// parameter (`VALUE` or `TZID`), and that it is the named function of the date.
#[verifier::external_body]
pub(crate) fn start_property(d: &DatePerhapsTime) -> (p: Prop)
    ensures
        p@ == ics_start_property(*d),
        p@.name == "DTSTART"@,
        p@.params.len() <= 1,
{
    let mut todo = icalendar::Todo::new();
    todo.starts(d.clone());
    let q = &todo.properties()["DTSTART"];
    let params = q.params().values().map(|x| (x.key().to_string(), x.value().to_string())).collect();
    Prop { name: q.key().to_string(), params, value: q.value().to_string() }
}

/// The property that `EventLike::ends` puts into an empty `Todo` for a
/// date.  The contract claims that it is named `DTEND` and has at most one
/// parameter (`VALUE` or `TZID`), and that it is the named function of the date.
#[verifier::external_body]
pub(crate) fn end_property(d: &DatePerhapsTime) -> (p: Prop)
    ensures
        p@ == ics_end_property(*d),
        p@.name == "DTEND"@,
        p@.params.len() <= 1,
{
    let mut todo = icalendar::Todo::new();
    todo.ends(d.clone());
    let q = &todo.properties()["DTEND"];
    let params = q.params().values().map(|x| (x.key().to_string(), x.value().to_string())).collect();
    Prop { name: q.key().to_string(), params, value: q.value().to_string() }
}

/// The property that `Todo::due` puts into an empty `Todo` for a date.  The
/// contract claims that it is named `DUE` and has at most one parameter
/// (`VALUE` or `TZID`), and that it is the named function of the date.
#[verifier::external_body]
pub(crate) fn due_property(d: &DatePerhapsTime) -> (p: Prop)
    ensures
        p@ == ics_due_property(*d),
        p@.name == "DUE"@,
        p@.params.len() <= 1,
{
    let mut todo = icalendar::Todo::new();
    todo.due(d.clone());
    let q = &todo.properties()["DUE"];
    let params = q.params().values().map(|x| (x.key().to_string(), x.value().to_string())).collect();
    Prop { name: q.key().to_string(), params, value: q.value().to_string() }
}

/// The property that `From<Class> for Property` makes, which
/// `Component::class` sets.  The contract claims that it is named `CLASS`
/// and has no parameters, and that it is the named function of the class.
#[verifier::external_body]
pub(crate) fn class_property(c: Class) -> (p: Prop)
    ensures
        p@ == ics_class_property(c),
        p@.name == "CLASS"@,
        p@.params.len() == 0,
{
    let q = icalendar::Property::from(c);
    let params = q.params().values().map(|x| (x.key().to_string(), x.value().to_string())).collect();
    Prop { name: q.key().to_string(), params, value: q.value().to_string() }
}

/// Appends the properties with `Component::append_property` and the
/// multi-properties with `Component::append_multi_property` to a new
/// `icalendar::Todo`, each made with `Property::new` and `add_parameter`,
/// and writes the to-do with `Component::to_string`.  `requires` keeps the
/// text a function of its arguments: with a `DTSTAMP` and a `UID` property
/// `icalendar` adds neither the current time nor a random UID, and with at
/// most one parameter per property the order of parameters is fixed.
#[verifier::external_body]
pub(crate) fn todo_component_text(props: &Vec<Prop>, multi: &Vec<Prop>) -> (r: String)
    requires
        exists|i: int| 0 <= i < props@.len() && (#[trigger] props@[i])@.name == "DTSTAMP"@,
        exists|i: int| 0 <= i < props@.len() && (#[trigger] props@[i])@.name == "UID"@,
        forall|i: int| 0 <= i < props@.len() ==> (#[trigger] props@[i])@.params.len() <= 1,
        forall|i: int| 0 <= i < multi@.len() ==> (#[trigger] multi@[i])@.params.len() <= 1,
    ensures
        r@ == ics_todo_component_text(prop_views(props@), prop_views(multi@)),
{
    let mut todo = icalendar::Todo::new();
    for p in props {
        let mut q = icalendar::Property::new(&p.name, &p.value);
        p.params.iter().for_each(|(k, v)| { q.add_parameter(k, v); });
        todo.append_property(q);
    }
    for p in multi {
        let mut q = icalendar::Property::new(&p.name, &p.value);
        p.params.iter().for_each(|(k, v)| { q.add_parameter(k, v); });
        todo.append_multi_property(q);
    }
    Component::to_string(&todo)
}

} // verus!
