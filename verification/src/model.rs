//! The values this library works on: what it reads of a calendar component,
//! the to-do items it produces, and its error type.

use vstd::prelude::*;

use icalendar::{Calendar, CalendarComponent, Class, DatePerhapsTime};

verus! {

/// An iCalendar calendar, as the `icalendar` crate holds it.
#[verifier::external_type_specification]
#[verifier::external_body]
pub struct ExCalendar(Calendar);

/// One component of a calendar: an event, a to-do, a venue or another kind.
#[verifier::external_type_specification]
#[verifier::external_body]
pub struct ExCalendarComponent(CalendarComponent);

/// A `DTSTART`, `DTEND` or `DUE` value: a date, or a date with a time.
#[verifier::external_type_specification]
#[verifier::external_body]
pub struct ExDatePerhapsTime(DatePerhapsTime);

/// The access classification of a calendar component.
#[verifier::external_type_specification]
#[verifier::external_body]
pub struct ExClass(Class);

/// Which kind of calendar component an item is.
#[derive(PartialEq, Eq, Structural, Clone, Copy, Debug)]
pub enum ComponentKind {
    Event,
    Todo,
    /// Any other component, such as a venue.
    Other,
}

/// What this library reads of one component of a calendar.
///
/// `props` maps each property name of an event or a to-do to its raw value;
/// it is empty for any other kind of component.  The typed fields hold what
/// the `icalendar` getters of an event or a to-do give for `DTSTART`,
/// `DTEND` and `CLASS`, and are `None` for any other kind; `timestamp` is the
/// `DTSTAMP` time that the getter gives, written as `icalendar` writes a UTC
/// time (`YYYYMMDDTHHMMSSZ`).
pub struct ItemView {
    pub kind: ComponentKind,
    pub props: Map<Seq<char>, Seq<char>>,
    pub start: Option<DatePerhapsTime>,
    pub end: Option<DatePerhapsTime>,
    pub timestamp: Option<Seq<char>>,
    pub class: Option<Class>,
}

/// The error that the library reports, a message as text.
#[derive(Debug)]
pub enum Error {
    RustError(String),
}

} // verus!

verus! {

/// A to-do item of the calendar that the library produces.
///
/// `timestamp` and `completed` are UTC times written as `icalendar` writes
/// them (`YYYYMMDDTHHMMSSZ`).
pub struct Task {
    pub summary: String,
    pub categories: String,
    pub description: String,
    pub start: DatePerhapsTime,
    pub end: DatePerhapsTime,
    pub due: DatePerhapsTime,
    pub uid: String,
    pub timestamp: String,
    pub class: Class,
    pub completed: Option<String>,
    pub percent_complete: Option<u8>,
}

/// The mathematical value of a [`Task`].
pub struct TaskView {
    pub summary: Seq<char>,
    pub categories: Seq<char>,
    pub description: Seq<char>,
    pub start: DatePerhapsTime,
    pub end: DatePerhapsTime,
    pub due: DatePerhapsTime,
    pub uid: Seq<char>,
    pub timestamp: Seq<char>,
    pub class: Class,
    pub completed: Option<Seq<char>>,
    pub percent_complete: Option<u8>,
}

/// The view of an optional string.
pub open spec fn opt_view(s: Option<String>) -> Option<Seq<char>> {
    match s {
        Some(v) => Some(v@),
        None => None,
    }
}

impl View for Task {
    type V = TaskView;

    open spec fn view(&self) -> TaskView {
        TaskView {
            summary: self.summary@,
            categories: self.categories@,
            description: self.description@,
            start: self.start,
            end: self.end,
            due: self.due,
            uid: self.uid@,
            timestamp: self.timestamp@,
            class: self.class,
            completed: opt_view(self.completed),
            percent_complete: self.percent_complete,
        }
    }
}

/// A calendar of to-do items, in order.
pub struct TaskCalendar {
    pub tasks: Vec<Task>,
}

impl View for TaskCalendar {
    type V = Seq<TaskView>;

    open spec fn view(&self) -> Seq<TaskView> {
        self.tasks@.map_values(|t: Task| t@)
    }
}

/// A property of a calendar component: its name, its parameters as name and
/// value, and its value as it is written.
pub struct Prop {
    pub name: String,
    pub params: Vec<(String, String)>,
    pub value: String,
}

/// The mathematical value of a [`Prop`].
pub struct PropView {
    pub name: Seq<char>,
    pub params: Seq<(Seq<char>, Seq<char>)>,
    pub value: Seq<char>,
}

impl View for Prop {
    type V = PropView;

    open spec fn view(&self) -> PropView {
        PropView {
            name: self.name@,
            params: self.params@.map_values(|p: (String, String)| (p.0@, p.1@)),
            value: self.value@,
        }
    }
}

/// The views of a sequence of properties.
pub open spec fn prop_views(ps: Seq<Prop>) -> Seq<PropView> {
    ps.map_values(|p: Prop| p@)
}

} // verus!
