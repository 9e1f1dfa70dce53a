//! Record extractors.
//!
//! Each extractor makes one forward pass over the event sequence of an XML
//! payload and projects it into one record shape: flat attribute records,
//! nested parent/child records, text-content records, or a singleton record.
//! The spec functions here define exactly which records a given event
//! sequence denotes; the exec extractors are verified against them.

use vstd::prelude::*;
use crate::error::Error;
use crate::models::{
    Absence, AbsencePeriod, AbsencePeriodView, AbsenceView, CalendarEvent, CalendarEventView,
    ClassSchedule, ClassScheduleView, Course, CourseView, DistrictInfo, DistrictInfoView, Document,
    DocumentData, DocumentDataView, DocumentView, HealthImmunization, HealthImmunizationView,
    Message, MessageView, ReportCard, ReportCardView, SchoolInfo, SchoolInfoView, StudentInfo,
    StudentInfoView,
};
use crate::strutil::str_eq;
use crate::xml::{
    attr_bool, attr_flag, attr_or, attr_or_empty, attr_string, attr_string_or, attr_strings,
    attr_values, first_fault_msg, has_fault, lemma_first_fault, tokenize, xml_events, Attr,
    AttrView, EventView, XmlEvent,
};

verus! {

/// Whether `ev` is the kind of element event that a flat shape collects: a
/// self-closing element named `tag`, or, for shapes read from explicit start
/// tags, a start element named `tag`.
pub open spec fn flat_match(ev: EventView, tag: Seq<char>, from_open: bool) -> bool {
    if from_open {
        ev matches EventView::Open { name, .. } && name == tag
    } else {
        ev matches EventView::SelfClose { name, .. } && name == tag
    }
}

/// The attributes of an element event; empty for other events.
pub open spec fn event_attrs(ev: EventView) -> Seq<AttrView> {
    match ev {
        EventView::Open { attrs, .. } => attrs,
        EventView::SelfClose { attrs, .. } => attrs,
        _ => Seq::empty(),
    }
}

/// The attribute lists of every element of a flat shape, in document order.
pub open spec fn flat_attr_lists(evs: Seq<EventView>, tag: Seq<char>, from_open: bool) -> Seq<
    Seq<AttrView>,
>
    decreases evs.len(),
{
    if evs.len() == 0 {
        Seq::empty()
    } else {
        let rest = flat_attr_lists(evs.drop_last(), tag, from_open);
        if flat_match(evs.last(), tag, from_open) {
            rest.push(event_attrs(evs.last()))
        } else {
            rest
        }
    }
}

/// One more event extends a flat scan by at most its own attribute list.
pub proof fn lemma_flat_snoc(evs: Seq<EventView>, ev: EventView, tag: Seq<char>, from_open: bool)
    ensures
        flat_attr_lists(evs.push(ev), tag, from_open) == if flat_match(ev, tag, from_open) {
            flat_attr_lists(evs, tag, from_open).push(event_attrs(ev))
        } else {
            flat_attr_lists(evs, tag, from_open)
        },
{
    assert(evs.push(ev).drop_last() =~= evs);
    assert(evs.push(ev).last() == ev);
}

/// The message denoted by one attribute list.
pub open spec fn message_from_attrs(a: Seq<AttrView>) -> MessageView {
    MessageView {
        id: attr_or_empty(a, "ID"@),
        subject: attr_or_empty(a, "Subject"@),
        content: attr_or_empty(a, "Content"@),
        from: attr_or_empty(a, "From"@),
        date: attr_or_empty(a, "BeginDate"@),
        read: attr_flag(a, "Read"@),
        deletable: attr_flag(a, "Deletable"@),
        message_type: attr_or_empty(a, "Type"@),
    }
}

/// The messages denoted by an event sequence: one record per self-closing
/// `MessageListing` element, in document order.
pub open spec fn messages_of(evs: Seq<EventView>) -> Seq<MessageView> {
    flat_attr_lists(evs, "MessageListing"@, false).map_values(|a| message_from_attrs(a))
}

/// Build one message record from an element's attributes.
pub fn build_message(attrs: &Vec<Attr>) -> (m: Message)
    ensures
        m@ == message_from_attrs(attrs.deep_view()),
{
    Message {
        id: attr_string(attrs, "ID"),
        subject: attr_string(attrs, "Subject"),
        content: attr_string(attrs, "Content"),
        from: attr_string(attrs, "From"),
        date: attr_string(attrs, "BeginDate"),
        read: attr_bool(attrs, "Read"),
        deletable: attr_bool(attrs, "Deletable"),
        message_type: attr_string(attrs, "Type"),
    }
}

/// Project an event sequence into message records.
///
/// Fails exactly when the pass reported malformed XML, with the tokenizer's
/// error text; otherwise yields one record per self-closing `MessageListing`
/// element, in document order.
pub fn extract_messages(events: &Vec<XmlEvent>) -> (r: Result<Vec<Message>, Error>)
    ensures
        match r {
            Ok(v) => !has_fault(events.deep_view()) && v.deep_view() == messages_of(
                events.deep_view(),
            ),
            Err(e) => has_fault(events.deep_view()) && (e matches Error::XmlParse(m) && m@
                == first_fault_msg(events.deep_view())),
        },
{
    let ghost evs = events.deep_view();
    let mut out: Vec<Message> = Vec::new();
    let mut i: usize = 0;
    while i < events.len()
        invariant
            0 <= i <= events@.len(),
            evs == events.deep_view(),
            evs.len() == events@.len(),
            forall|j: int| 0 <= j < i ==> !(#[trigger] evs[j] is Fault),
            out.deep_view() == messages_of(evs.take(i as int)),
        decreases events@.len() - i,
    {
        proof {
            assert(evs[i as int] == events@[i as int]@);
            assert(evs.take(i as int).push(evs[i as int]) =~= evs.take(i as int + 1));
            lemma_flat_snoc(evs.take(i as int), evs[i as int], "MessageListing"@, false);
        }
        match &events[i] {
            XmlEvent::SelfClose { name, attrs } => {
                if str_eq(name.as_str(), "MessageListing") {
                    let ghost prev = out.deep_view();
                    out.push(build_message(attrs));
                    proof {
                        assert(out.deep_view() =~= prev.push(
                            message_from_attrs(attrs.deep_view()),
                        ));
                        assert(messages_of(evs.take(i as int + 1)) =~= messages_of(
                            evs.take(i as int),
                        ).push(message_from_attrs(attrs.deep_view())));
                    }
                } else {
                    proof {
                        assert(messages_of(evs.take(i as int + 1)) =~= messages_of(
                            evs.take(i as int),
                        ));
                    }
                }
            }
            XmlEvent::Fault { message } => {
                proof {
                    lemma_first_fault(evs, i as int);
                }
                return Err(Error::XmlParse(message.clone()));
            }
            _ => {
                proof {
                    assert(messages_of(evs.take(i as int + 1)) =~= messages_of(evs.take(i as int)));
                }
            }
        }
        i = i + 1;
    }
    proof {
        assert(evs.take(evs.len() as int) =~= evs);
    }
    Ok(out)
}

/// The district denoted by one attribute list.
pub open spec fn district_from_attrs(a: Seq<AttrView>) -> DistrictInfoView {
    DistrictInfoView {
        name: attr_or_empty(a, "Name"@),
        address: attr_or_empty(a, "Address"@),
        url: attr_or_empty(a, "PvueURL"@),
    }
}

/// The districts denoted by an event sequence: one record per self-closing
/// `DistrictInfo` element, in document order.
pub open spec fn districts_of(evs: Seq<EventView>) -> Seq<DistrictInfoView> {
    flat_attr_lists(evs, "DistrictInfo"@, false).map_values(|a| district_from_attrs(a))
}

/// Build one district record from an element's attributes.
pub fn build_district(attrs: &Vec<Attr>) -> (d: DistrictInfo)
    ensures
        d@ == district_from_attrs(attrs.deep_view()),
{
    DistrictInfo {
        name: attr_string(attrs, "Name"),
        address: attr_string(attrs, "Address"),
        url: attr_string(attrs, "PvueURL"),
    }
}

/// Project an event sequence into district records.
///
/// Fails exactly when the pass reported malformed XML; otherwise yields one
/// record per self-closing `DistrictInfo` element, in document order.
pub fn extract_districts(events: &Vec<XmlEvent>) -> (r: Result<Vec<DistrictInfo>, Error>)
    ensures
        match r {
            Ok(v) => !has_fault(events.deep_view()) && v.deep_view() == districts_of(
                events.deep_view(),
            ),
            Err(e) => has_fault(events.deep_view()) && (e matches Error::XmlParse(m) && m@
                == first_fault_msg(events.deep_view())),
        },
{
    let ghost evs = events.deep_view();
    let mut out: Vec<DistrictInfo> = Vec::new();
    let mut i: usize = 0;
    while i < events.len()
        invariant
            0 <= i <= events@.len(),
            evs == events.deep_view(),
            evs.len() == events@.len(),
            forall|j: int| 0 <= j < i ==> !(#[trigger] evs[j] is Fault),
            out.deep_view() == districts_of(evs.take(i as int)),
        decreases events@.len() - i,
    {
        proof {
            assert(evs[i as int] == events@[i as int]@);
            assert(evs.take(i as int).push(evs[i as int]) =~= evs.take(i as int + 1));
            lemma_flat_snoc(evs.take(i as int), evs[i as int], "DistrictInfo"@, false);
        }
        match &events[i] {
            XmlEvent::SelfClose { name, attrs } => {
                if str_eq(name.as_str(), "DistrictInfo") {
                    let ghost prev = out.deep_view();
                    out.push(build_district(attrs));
                    proof {
                        assert(out.deep_view() =~= prev.push(
                            district_from_attrs(attrs.deep_view()),
                        ));
                        assert(districts_of(evs.take(i as int + 1)) =~= districts_of(
                            evs.take(i as int),
                        ).push(district_from_attrs(attrs.deep_view())));
                    }
                } else {
                    proof {
                        assert(districts_of(evs.take(i as int + 1)) =~= districts_of(
                            evs.take(i as int),
                        ));
                    }
                }
            }
            XmlEvent::Fault { message } => {
                proof {
                    lemma_first_fault(evs, i as int);
                }
                return Err(Error::XmlParse(message.clone()));
            }
            _ => {
                proof {
                    assert(districts_of(evs.take(i as int + 1)) =~= districts_of(
                        evs.take(i as int),
                    ));
                }
            }
        }
        i = i + 1;
    }
    proof {
        assert(evs.take(evs.len() as int) =~= evs);
    }
    Ok(out)
}

/// The calendar entry denoted by one attribute list.
pub open spec fn calendar_event_from_attrs(a: Seq<AttrView>) -> CalendarEventView {
    CalendarEventView {
        date: attr_or_empty(a, "Date"@),
        title: attr_or_empty(a, "Title"@),
        icon: attr_or_empty(a, "Icon"@),
        day_type: attr_or_empty(a, "DayType"@),
    }
}

/// The calendar entries denoted by an event sequence: one record per
/// self-closing `EventList` element, in document order.
pub open spec fn calendar_events_of(evs: Seq<EventView>) -> Seq<CalendarEventView> {
    flat_attr_lists(evs, "EventList"@, false).map_values(|a| calendar_event_from_attrs(a))
}

/// Build one calendar entry from an element's attributes.
pub fn build_calendar_event(attrs: &Vec<Attr>) -> (c: CalendarEvent)
    ensures
        c@ == calendar_event_from_attrs(attrs.deep_view()),
{
    CalendarEvent {
        date: attr_string(attrs, "Date"),
        title: attr_string(attrs, "Title"),
        icon: attr_string(attrs, "Icon"),
        day_type: attr_string(attrs, "DayType"),
    }
}

/// Project an event sequence into calendar entries.
///
/// Fails exactly when the pass reported malformed XML; otherwise yields one
/// record per self-closing `EventList` element, in document order.
pub fn extract_calendar(events: &Vec<XmlEvent>) -> (r: Result<Vec<CalendarEvent>, Error>)
    ensures
        match r {
            Ok(v) => !has_fault(events.deep_view()) && v.deep_view() == calendar_events_of(
                events.deep_view(),
            ),
            Err(e) => has_fault(events.deep_view()) && (e matches Error::XmlParse(m) && m@
                == first_fault_msg(events.deep_view())),
        },
{
    let ghost evs = events.deep_view();
    let mut out: Vec<CalendarEvent> = Vec::new();
    let mut i: usize = 0;
    while i < events.len()
        invariant
            0 <= i <= events@.len(),
            evs == events.deep_view(),
            evs.len() == events@.len(),
            forall|j: int| 0 <= j < i ==> !(#[trigger] evs[j] is Fault),
            out.deep_view() == calendar_events_of(evs.take(i as int)),
        decreases events@.len() - i,
    {
        proof {
            assert(evs[i as int] == events@[i as int]@);
            assert(evs.take(i as int).push(evs[i as int]) =~= evs.take(i as int + 1));
            lemma_flat_snoc(evs.take(i as int), evs[i as int], "EventList"@, false);
        }
        match &events[i] {
            XmlEvent::SelfClose { name, attrs } => {
                if str_eq(name.as_str(), "EventList") {
                    let ghost prev = out.deep_view();
                    out.push(build_calendar_event(attrs));
                    proof {
                        assert(out.deep_view() =~= prev.push(
                            calendar_event_from_attrs(attrs.deep_view()),
                        ));
                        assert(calendar_events_of(evs.take(i as int + 1)) =~= calendar_events_of(
                            evs.take(i as int),
                        ).push(calendar_event_from_attrs(attrs.deep_view())));
                    }
                } else {
                    proof {
                        assert(calendar_events_of(evs.take(i as int + 1)) =~= calendar_events_of(
                            evs.take(i as int),
                        ));
                    }
                }
            }
            XmlEvent::Fault { message } => {
                proof {
                    lemma_first_fault(evs, i as int);
                }
                return Err(Error::XmlParse(message.clone()));
            }
            _ => {
                proof {
                    assert(calendar_events_of(evs.take(i as int + 1)) =~= calendar_events_of(
                        evs.take(i as int),
                    ));
                }
            }
        }
        i = i + 1;
    }
    proof {
        assert(evs.take(evs.len() as int) =~= evs);
    }
    Ok(out)
}

/// The course denoted by one attribute list; marks arrive by a separate call,
/// so a freshly parsed course carries none.
pub open spec fn course_from_attrs(a: Seq<AttrView>) -> CourseView {
    CourseView {
        period: attr_or_empty(a, "Period"@),
        title: attr_or_empty(a, "Title"@),
        room: attr_or_empty(a, "Room"@),
        staff: attr_or_empty(a, "Staff"@),
        staff_email: attr_or_empty(a, "StaffEMail"@),
        marks: Seq::empty(),
    }
}

/// The courses denoted by an event sequence: one record per `Course` start
/// tag, in document order.
pub open spec fn courses_of(evs: Seq<EventView>) -> Seq<CourseView> {
    flat_attr_lists(evs, "Course"@, true).map_values(|a| course_from_attrs(a))
}

/// Build one course record from an element's attributes.
pub fn build_course(attrs: &Vec<Attr>) -> (c: Course)
    ensures
        c@ == course_from_attrs(attrs.deep_view()),
{
    let c = Course {
        period: attr_string(attrs, "Period"),
        title: attr_string(attrs, "Title"),
        room: attr_string(attrs, "Room"),
        staff: attr_string(attrs, "Staff"),
        staff_email: attr_string(attrs, "StaffEMail"),
        marks: Vec::new(),
    };
    proof {
        assert(c.marks.deep_view() =~= Seq::<crate::models::MarkView>::empty());
    }
    c
}

/// Project an event sequence into gradebook courses.
///
/// Fails exactly when the pass reported malformed XML; otherwise yields one
/// record per `Course` start tag, in document order.
pub fn extract_gradebook(events: &Vec<XmlEvent>) -> (r: Result<Vec<Course>, Error>)
    ensures
        match r {
            Ok(v) => !has_fault(events.deep_view()) && v.deep_view() == courses_of(
                events.deep_view(),
            ),
            Err(e) => has_fault(events.deep_view()) && (e matches Error::XmlParse(m) && m@
                == first_fault_msg(events.deep_view())),
        },
{
    let ghost evs = events.deep_view();
    let mut out: Vec<Course> = Vec::new();
    let mut i: usize = 0;
    while i < events.len()
        invariant
            0 <= i <= events@.len(),
            evs == events.deep_view(),
            evs.len() == events@.len(),
            forall|j: int| 0 <= j < i ==> !(#[trigger] evs[j] is Fault),
            out.deep_view() == courses_of(evs.take(i as int)),
        decreases events@.len() - i,
    {
        proof {
            assert(evs[i as int] == events@[i as int]@);
            assert(evs.take(i as int).push(evs[i as int]) =~= evs.take(i as int + 1));
            lemma_flat_snoc(evs.take(i as int), evs[i as int], "Course"@, true);
        }
        match &events[i] {
            XmlEvent::Open { name, attrs } => {
                if str_eq(name.as_str(), "Course") {
                    let ghost prev = out.deep_view();
                    out.push(build_course(attrs));
                    proof {
                        assert(out.deep_view() =~= prev.push(course_from_attrs(attrs.deep_view())));
                        assert(courses_of(evs.take(i as int + 1)) =~= courses_of(
                            evs.take(i as int),
                        ).push(course_from_attrs(attrs.deep_view())));
                    }
                } else {
                    proof {
                        assert(courses_of(evs.take(i as int + 1)) =~= courses_of(
                            evs.take(i as int),
                        ));
                    }
                }
            }
            XmlEvent::Fault { message } => {
                proof {
                    lemma_first_fault(evs, i as int);
                }
                return Err(Error::XmlParse(message.clone()));
            }
            _ => {
                proof {
                    assert(courses_of(evs.take(i as int + 1)) =~= courses_of(evs.take(i as int)));
                }
            }
        }
        i = i + 1;
    }
    proof {
        assert(evs.take(evs.len() as int) =~= evs);
    }
    Ok(out)
}

/// The scheduled class denoted by one attribute list.
pub open spec fn class_from_attrs(a: Seq<AttrView>) -> ClassScheduleView {
    ClassScheduleView {
        period: attr_or_empty(a, "Period"@),
        course_title: attr_or_empty(a, "CourseTitle"@),
        room_name: attr_or_empty(a, "RoomName"@),
        teacher: attr_or_empty(a, "Teacher"@),
        teacher_email: attr_or_empty(a, "TeacherEmail"@),
    }
}

/// The scheduled classes denoted by an event sequence: one record per
/// self-closing `ClassListing` element, in document order.
pub open spec fn class_schedules_of(evs: Seq<EventView>) -> Seq<ClassScheduleView> {
    flat_attr_lists(evs, "ClassListing"@, false).map_values(|a| class_from_attrs(a))
}

/// Build one scheduled-class record from an element's attributes.
pub fn build_class(attrs: &Vec<Attr>) -> (c: ClassSchedule)
    ensures
        c@ == class_from_attrs(attrs.deep_view()),
{
    ClassSchedule {
        period: attr_string(attrs, "Period"),
        course_title: attr_string(attrs, "CourseTitle"),
        room_name: attr_string(attrs, "RoomName"),
        teacher: attr_string(attrs, "Teacher"),
        teacher_email: attr_string(attrs, "TeacherEmail"),
    }
}

/// Project an event sequence into scheduled classes.
///
/// Fails exactly when the pass reported malformed XML; otherwise yields one
/// record per self-closing `ClassListing` element, in document order.
pub fn extract_class_schedule(events: &Vec<XmlEvent>) -> (r: Result<Vec<ClassSchedule>, Error>)
    ensures
        match r {
            Ok(v) => !has_fault(events.deep_view()) && v.deep_view() == class_schedules_of(
                events.deep_view(),
            ),
            Err(e) => has_fault(events.deep_view()) && (e matches Error::XmlParse(m) && m@
                == first_fault_msg(events.deep_view())),
        },
{
    let ghost evs = events.deep_view();
    let mut out: Vec<ClassSchedule> = Vec::new();
    let mut i: usize = 0;
    while i < events.len()
        invariant
            0 <= i <= events@.len(),
            evs == events.deep_view(),
            evs.len() == events@.len(),
            forall|j: int| 0 <= j < i ==> !(#[trigger] evs[j] is Fault),
            out.deep_view() == class_schedules_of(evs.take(i as int)),
        decreases events@.len() - i,
    {
        proof {
            assert(evs[i as int] == events@[i as int]@);
            assert(evs.take(i as int).push(evs[i as int]) =~= evs.take(i as int + 1));
            lemma_flat_snoc(evs.take(i as int), evs[i as int], "ClassListing"@, false);
        }
        match &events[i] {
            XmlEvent::SelfClose { name, attrs } => {
                if str_eq(name.as_str(), "ClassListing") {
                    let ghost prev = out.deep_view();
                    out.push(build_class(attrs));
                    proof {
                        assert(out.deep_view() =~= prev.push(class_from_attrs(attrs.deep_view())));
                        assert(class_schedules_of(evs.take(i as int + 1)) =~= class_schedules_of(
                            evs.take(i as int),
                        ).push(class_from_attrs(attrs.deep_view())));
                    }
                } else {
                    proof {
                        assert(class_schedules_of(evs.take(i as int + 1)) =~= class_schedules_of(
                            evs.take(i as int),
                        ));
                    }
                }
            }
            XmlEvent::Fault { message } => {
                proof {
                    lemma_first_fault(evs, i as int);
                }
                return Err(Error::XmlParse(message.clone()));
            }
            _ => {
                proof {
                    assert(class_schedules_of(evs.take(i as int + 1)) =~= class_schedules_of(
                        evs.take(i as int),
                    ));
                }
            }
        }
        i = i + 1;
    }
    proof {
        assert(evs.take(evs.len() as int) =~= evs);
    }
    Ok(out)
}

/// The report card denoted by one attribute list.
pub open spec fn report_card_from_attrs(a: Seq<AttrView>) -> ReportCardView {
    ReportCardView {
        document_gu: attr_or_empty(a, "DocumentGU"@),
        reporting_period: attr_or_empty(a, "ReportingPeriodName"@),
        end_date: attr_or_empty(a, "EndDate"@),
        message: attr_or_empty(a, "Message"@),
    }
}

/// The report cards denoted by an event sequence: one record per self-closing
/// `RCReportingPeriod` element, in document order.
pub open spec fn report_cards_of(evs: Seq<EventView>) -> Seq<ReportCardView> {
    flat_attr_lists(evs, "RCReportingPeriod"@, false).map_values(|a| report_card_from_attrs(a))
}

/// Build one report-card record from an element's attributes.
pub fn build_report_card(attrs: &Vec<Attr>) -> (c: ReportCard)
    ensures
        c@ == report_card_from_attrs(attrs.deep_view()),
{
    ReportCard {
        document_gu: attr_string(attrs, "DocumentGU"),
        reporting_period: attr_string(attrs, "ReportingPeriodName"),
        end_date: attr_string(attrs, "EndDate"),
        message: attr_string(attrs, "Message"),
    }
}

/// Project an event sequence into report cards.
///
/// Fails exactly when the pass reported malformed XML; otherwise yields one
/// record per self-closing `RCReportingPeriod` element, in document order.
pub fn extract_report_cards(events: &Vec<XmlEvent>) -> (r: Result<Vec<ReportCard>, Error>)
    ensures
        match r {
            Ok(v) => !has_fault(events.deep_view()) && v.deep_view() == report_cards_of(
                events.deep_view(),
            ),
            Err(e) => has_fault(events.deep_view()) && (e matches Error::XmlParse(m) && m@
                == first_fault_msg(events.deep_view())),
        },
{
    let ghost evs = events.deep_view();
    let mut out: Vec<ReportCard> = Vec::new();
    let mut i: usize = 0;
    while i < events.len()
        invariant
            0 <= i <= events@.len(),
            evs == events.deep_view(),
            evs.len() == events@.len(),
            forall|j: int| 0 <= j < i ==> !(#[trigger] evs[j] is Fault),
            out.deep_view() == report_cards_of(evs.take(i as int)),
        decreases events@.len() - i,
    {
        proof {
            assert(evs[i as int] == events@[i as int]@);
            assert(evs.take(i as int).push(evs[i as int]) =~= evs.take(i as int + 1));
            lemma_flat_snoc(evs.take(i as int), evs[i as int], "RCReportingPeriod"@, false);
        }
        match &events[i] {
            XmlEvent::SelfClose { name, attrs } => {
                if str_eq(name.as_str(), "RCReportingPeriod") {
                    let ghost prev = out.deep_view();
                    out.push(build_report_card(attrs));
                    proof {
                        assert(out.deep_view() =~= prev.push(
                            report_card_from_attrs(attrs.deep_view()),
                        ));
                        assert(report_cards_of(evs.take(i as int + 1)) =~= report_cards_of(
                            evs.take(i as int),
                        ).push(report_card_from_attrs(attrs.deep_view())));
                    }
                } else {
                    proof {
                        assert(report_cards_of(evs.take(i as int + 1)) =~= report_cards_of(
                            evs.take(i as int),
                        ));
                    }
                }
            }
            XmlEvent::Fault { message } => {
                proof {
                    lemma_first_fault(evs, i as int);
                }
                return Err(Error::XmlParse(message.clone()));
            }
            _ => {
                proof {
                    assert(report_cards_of(evs.take(i as int + 1)) =~= report_cards_of(
                        evs.take(i as int),
                    ));
                }
            }
        }
        i = i + 1;
    }
    proof {
        assert(evs.take(evs.len() as int) =~= evs);
    }
    Ok(out)
}

/// The document denoted by one attribute list.
pub open spec fn document_from_attrs(a: Seq<AttrView>) -> DocumentView {
    DocumentView {
        document_gu: attr_or_empty(a, "DocumentGU"@),
        file_name: attr_or_empty(a, "DocumentFileName"@),
        date: attr_or_empty(a, "DocumentDate"@),
        document_type: attr_or_empty(a, "DocumentType"@),
        comment: attr_or_empty(a, "DocumentComment"@),
    }
}

/// The documents denoted by an event sequence: one record per self-closing
/// `StudentDocumentData` element, in document order.
pub open spec fn documents_of(evs: Seq<EventView>) -> Seq<DocumentView> {
    flat_attr_lists(evs, "StudentDocumentData"@, false).map_values(|a| document_from_attrs(a))
}

/// Build one document record from an element's attributes.
pub fn build_document(attrs: &Vec<Attr>) -> (d: Document)
    ensures
        d@ == document_from_attrs(attrs.deep_view()),
{
    Document {
        document_gu: attr_string(attrs, "DocumentGU"),
        file_name: attr_string(attrs, "DocumentFileName"),
        date: attr_string(attrs, "DocumentDate"),
        document_type: attr_string(attrs, "DocumentType"),
        comment: attr_string(attrs, "DocumentComment"),
    }
}

/// Project an event sequence into document records.
///
/// Fails exactly when the pass reported malformed XML; otherwise yields one
/// record per self-closing `StudentDocumentData` element, in document order.
pub fn extract_documents(events: &Vec<XmlEvent>) -> (r: Result<Vec<Document>, Error>)
    ensures
        match r {
            Ok(v) => !has_fault(events.deep_view()) && v.deep_view() == documents_of(
                events.deep_view(),
            ),
            Err(e) => has_fault(events.deep_view()) && (e matches Error::XmlParse(m) && m@
                == first_fault_msg(events.deep_view())),
        },
{
    let ghost evs = events.deep_view();
    let mut out: Vec<Document> = Vec::new();
    let mut i: usize = 0;
    while i < events.len()
        invariant
            0 <= i <= events@.len(),
            evs == events.deep_view(),
            evs.len() == events@.len(),
            forall|j: int| 0 <= j < i ==> !(#[trigger] evs[j] is Fault),
            out.deep_view() == documents_of(evs.take(i as int)),
        decreases events@.len() - i,
    {
        proof {
            assert(evs[i as int] == events@[i as int]@);
            assert(evs.take(i as int).push(evs[i as int]) =~= evs.take(i as int + 1));
            lemma_flat_snoc(evs.take(i as int), evs[i as int], "StudentDocumentData"@, false);
        }
        match &events[i] {
            XmlEvent::SelfClose { name, attrs } => {
                if str_eq(name.as_str(), "StudentDocumentData") {
                    let ghost prev = out.deep_view();
                    out.push(build_document(attrs));
                    proof {
                        assert(out.deep_view() =~= prev.push(
                            document_from_attrs(attrs.deep_view()),
                        ));
                        assert(documents_of(evs.take(i as int + 1)) =~= documents_of(
                            evs.take(i as int),
                        ).push(document_from_attrs(attrs.deep_view())));
                    }
                } else {
                    proof {
                        assert(documents_of(evs.take(i as int + 1)) =~= documents_of(
                            evs.take(i as int),
                        ));
                    }
                }
            }
            XmlEvent::Fault { message } => {
                proof {
                    lemma_first_fault(evs, i as int);
                }
                return Err(Error::XmlParse(message.clone()));
            }
            _ => {
                proof {
                    assert(documents_of(evs.take(i as int + 1)) =~= documents_of(
                        evs.take(i as int),
                    ));
                }
            }
        }
        i = i + 1;
    }
    proof {
        assert(evs.take(evs.len() as int) =~= evs);
    }
    Ok(out)
}

/// What a front-to-back scan for the single school-info element finds first:
/// a matching element, a malformed-XML fault, or the end of the document.
pub enum SchoolScan {
    Found(Seq<AttrView>),
    Faulted(Seq<char>),
    Missing,
}

/// The school record denoted by one attribute list.
pub open spec fn school_from_attrs(a: Seq<AttrView>) -> SchoolInfoView {
    SchoolInfoView {
        school: attr_or_empty(a, "School"@),
        principal: attr_or_empty(a, "Principal"@),
        address: attr_or_empty(a, "SchoolAddress"@),
        city: attr_or_empty(a, "SchoolCity"@),
        state: attr_or_empty(a, "SchoolState"@),
        zip: attr_or_empty(a, "SchoolZip"@),
        phone: attr_or_empty(a, "Phone"@),
        url: attr_or_empty(a, "URL"@),
    }
}

/// Scan for the first self-closing `StudentSchoolInfoListing` element. The
/// first match wins: nothing after it, faults included, is looked at.
pub open spec fn school_scan(evs: Seq<EventView>) -> SchoolScan
    decreases evs.len(),
{
    if evs.len() == 0 {
        SchoolScan::Missing
    } else if flat_match(evs[0], "StudentSchoolInfoListing"@, false) {
        SchoolScan::Found(event_attrs(evs[0]))
    } else if evs[0] is Fault {
        SchoolScan::Faulted(evs[0]->Fault_message)
    } else {
        school_scan(evs.skip(1))
    }
}

/// Build one school record from an element's attributes.
pub fn build_school(attrs: &Vec<Attr>) -> (s: SchoolInfo)
    ensures
        s@ == school_from_attrs(attrs.deep_view()),
{
    SchoolInfo {
        school: attr_string(attrs, "School"),
        principal: attr_string(attrs, "Principal"),
        address: attr_string(attrs, "SchoolAddress"),
        city: attr_string(attrs, "SchoolCity"),
        state: attr_string(attrs, "SchoolState"),
        zip: attr_string(attrs, "SchoolZip"),
        phone: attr_string(attrs, "Phone"),
        url: attr_string(attrs, "URL"),
    }
}

/// Project an event sequence into the single school record.
///
/// The first self-closing `StudentSchoolInfoListing` element wins and ends
/// the scan; a malformed document before any match fails with the tokenizer's
/// error text; a document with no match at all fails as an invalid response.
pub fn extract_school_info(events: &Vec<XmlEvent>) -> (r: Result<SchoolInfo, Error>)
    ensures
        match r {
            Ok(v) => school_scan(events.deep_view()) matches SchoolScan::Found(a) && v@
                == school_from_attrs(a),
            Err(e) => match e {
                Error::XmlParse(m) => school_scan(events.deep_view()) matches SchoolScan::Faulted(f)
                    && m@ == f,
                Error::InvalidResponse(m) => school_scan(events.deep_view()) is Missing && m@
                    == "No school info found"@,
                _ => false,
            },
        },
{
    let ghost evs = events.deep_view();
    let mut i: usize = 0;
    proof {
        assert(evs.skip(0) =~= evs);
    }
    while i < events.len()
        invariant
            0 <= i <= events@.len(),
            evs == events.deep_view(),
            evs.len() == events@.len(),
            school_scan(evs) == school_scan(evs.skip(i as int)),
        decreases events@.len() - i,
    {
        proof {
            assert(evs[i as int] == events@[i as int]@);
            assert(evs.skip(i as int).len() > 0);
            assert(evs.skip(i as int)[0] == evs[i as int]);
            assert(evs.skip(i as int).skip(1) =~= evs.skip(i as int + 1));
        }
        match &events[i] {
            XmlEvent::SelfClose { name, attrs } => {
                if str_eq(name.as_str(), "StudentSchoolInfoListing") {
                    return Ok(build_school(attrs));
                }
            }
            XmlEvent::Fault { message } => {
                return Err(Error::XmlParse(message.clone()));
            }
            _ => {}
        }
        i = i + 1;
    }
    proof {
        assert(evs.skip(evs.len() as int) =~= Seq::<EventView>::empty());
    }
    Err(Error::InvalidResponse("No school info found".to_owned()))
}

/// The running state of a scan for absence records: the finished records,
/// the in-progress record opened by an `Absence` start tag, and whether the
/// scan stands inside a `Periods` group.
pub struct AttendScan {
    pub done: Seq<AbsenceView>,
    pub cur: Option<AbsenceView>,
    pub in_periods: bool,
}

/// The absence denoted by a parent element's attributes, before any child
/// periods are attached.
pub open spec fn absence_from_attrs(a: Seq<AttrView>) -> AbsenceView {
    AbsenceView {
        date: attr_or_empty(a, "AbsenceDate"@),
        reason: attr_or_empty(a, "Reason"@),
        note: attr_or_empty(a, "Note"@),
        periods: Seq::empty(),
    }
}

/// The period sub-record denoted by one attribute list.
pub open spec fn period_from_attrs(a: Seq<AttrView>) -> AbsencePeriodView {
    AbsencePeriodView {
        number: attr_or_empty(a, "Number"@),
        name: attr_or_empty(a, "Name"@),
        reason: attr_or_empty(a, "Reason"@),
        course: attr_or_empty(a, "Course"@),
        staff: attr_or_empty(a, "Staff"@),
        staff_email: attr_or_empty(a, "StaffEMail"@),
    }
}

/// One step of the absence state machine. A child period attaches only while
/// the scan stands inside a `Periods` group of an open parent, so children
/// never leak across records; the parent's close tag finalizes it.
pub open spec fn attendance_step(st: AttendScan, ev: EventView) -> AttendScan {
    match ev {
        EventView::Open { name, attrs } => if name == "Absence"@ {
            AttendScan { done: st.done, cur: Some(absence_from_attrs(attrs)), in_periods: st.in_periods }
        } else if name == "Periods"@ {
            AttendScan { done: st.done, cur: st.cur, in_periods: true }
        } else {
            st
        },
        EventView::SelfClose { name, attrs } => if name == "Period"@ && st.in_periods
            && st.cur is Some {
            let c = st.cur->0;
            AttendScan {
                done: st.done,
                cur: Some(
                    AbsenceView {
                        date: c.date,
                        reason: c.reason,
                        note: c.note,
                        periods: c.periods.push(period_from_attrs(attrs)),
                    },
                ),
                in_periods: st.in_periods,
            }
        } else {
            st
        },
        EventView::Close { name } => if name == "Periods"@ {
            AttendScan { done: st.done, cur: st.cur, in_periods: false }
        } else if name == "Absence"@ && st.cur is Some {
            AttendScan { done: st.done.push(st.cur->0), cur: None, in_periods: st.in_periods }
        } else {
            st
        },
        _ => st,
    }
}

/// The absence state after a whole event sequence.
pub open spec fn attendance_scan(evs: Seq<EventView>) -> AttendScan
    decreases evs.len(),
{
    if evs.len() == 0 {
        AttendScan { done: Seq::empty(), cur: None, in_periods: false }
    } else {
        attendance_step(attendance_scan(evs.drop_last()), evs.last())
    }
}

/// The absences denoted by an event sequence, in document order, each with
/// its periods in document order.
pub open spec fn absences_of(evs: Seq<EventView>) -> Seq<AbsenceView> {
    attendance_scan(evs).done
}

/// Build one absence record, without periods, from an element's attributes.
pub fn build_absence(attrs: &Vec<Attr>) -> (a: Absence)
    ensures
        a@ == absence_from_attrs(attrs.deep_view()),
{
    let a = Absence {
        date: attr_string(attrs, "AbsenceDate"),
        reason: attr_string(attrs, "Reason"),
        note: attr_string(attrs, "Note"),
        periods: Vec::new(),
    };
    proof {
        assert(a.periods.deep_view() =~= Seq::<AbsencePeriodView>::empty());
    }
    a
}

/// Build one period sub-record from an element's attributes.
pub fn build_period(attrs: &Vec<Attr>) -> (p: AbsencePeriod)
    ensures
        p@ == period_from_attrs(attrs.deep_view()),
{
    AbsencePeriod {
        number: attr_string(attrs, "Number"),
        name: attr_string(attrs, "Name"),
        reason: attr_string(attrs, "Reason"),
        course: attr_string(attrs, "Course"),
        staff: attr_string(attrs, "Staff"),
        staff_email: attr_string(attrs, "StaffEMail"),
    }
}

/// Project an event sequence into absence records with nested periods.
///
/// Fails exactly when the pass reported malformed XML; otherwise runs the
/// absence state machine over the events and yields the finished records.
pub fn extract_attendance(events: &Vec<XmlEvent>) -> (r: Result<Vec<Absence>, Error>)
    ensures
        match r {
            Ok(v) => !has_fault(events.deep_view()) && v.deep_view() == absences_of(
                events.deep_view(),
            ),
            Err(e) => has_fault(events.deep_view()) && (e matches Error::XmlParse(m) && m@
                == first_fault_msg(events.deep_view())),
        },
{
    let ghost evs = events.deep_view();
    let mut out: Vec<Absence> = Vec::new();
    let mut cur: Option<Absence> = None;
    let mut in_periods: bool = false;
    let mut i: usize = 0;
    while i < events.len()
        invariant
            0 <= i <= events@.len(),
            evs == events.deep_view(),
            evs.len() == events@.len(),
            forall|j: int| 0 <= j < i ==> !(#[trigger] evs[j] is Fault),
            out.deep_view() == attendance_scan(evs.take(i as int)).done,
            cur.deep_view() == attendance_scan(evs.take(i as int)).cur,
            in_periods == attendance_scan(evs.take(i as int)).in_periods,
        decreases events@.len() - i,
    {
        let ghost st = attendance_scan(evs.take(i as int));
        proof {
            assert(evs[i as int] == events@[i as int]@);
            assert(evs.take(i as int + 1).drop_last() =~= evs.take(i as int));
            assert(evs.take(i as int + 1).last() == evs[i as int]);
            assert(attendance_scan(evs.take(i as int + 1)) == attendance_step(st, evs[i as int]));
        }
        match &events[i] {
            XmlEvent::Open { name, attrs } => {
                if str_eq(name.as_str(), "Absence") {
                    cur = Some(build_absence(attrs));
                } else if str_eq(name.as_str(), "Periods") {
                    in_periods = true;
                }
            }
            XmlEvent::SelfClose { name, attrs } => {
                if str_eq(name.as_str(), "Period") && in_periods {
                    cur = match cur {
                        Some(a) => {
                            let mut a = a;
                            let ghost pv = a.periods.deep_view();
                            a.periods.push(build_period(attrs));
                            proof {
                                assert(a.periods.deep_view() =~= pv.push(
                                    period_from_attrs(attrs.deep_view()),
                                ));
                            }
                            Some(a)
                        },
                        None => None,
                    };
                }
            }
            XmlEvent::Close { name } => {
                if str_eq(name.as_str(), "Periods") {
                    in_periods = false;
                } else if str_eq(name.as_str(), "Absence") {
                    let taken = cur;
                    cur = None;
                    match taken {
                        Some(a) => {
                            let ghost ov = out.deep_view();
                            let ghost av = a@;
                            out.push(a);
                            proof {
                                assert(out.deep_view() =~= ov.push(av));
                            }
                        },
                        None => {},
                    }
                }
            }
            XmlEvent::Fault { message } => {
                proof {
                    lemma_first_fault(evs, i as int);
                }
                return Err(Error::XmlParse(message.clone()));
            }
            _ => {},
        }
        i = i + 1;
    }
    proof {
        assert(evs.take(evs.len() as int) =~= evs);
    }
    Ok(out)
}

/// The running state of a scan for immunization records.
pub struct HealthScan {
    pub done: Seq<HealthImmunizationView>,
    pub cur: Option<HealthImmunizationView>,
}

/// The immunization denoted by a parent element's attributes, before any
/// dose dates are attached.
pub open spec fn immunization_from_attrs(a: Seq<AttrView>) -> HealthImmunizationView {
    HealthImmunizationView {
        name: attr_or_empty(a, "Name"@),
        compliant: attr_flag(a, "Compliant"@),
        compliant_message: attr_or_empty(a, "CompliantMessage"@),
        required_doses: attr_or_empty(a, "NumReqDoses"@),
        dates: Seq::empty(),
    }
}

/// One step of the immunization state machine: a `HealthImmunizationListing`
/// start tag opens a record, each self-closing `ImmunizationDate` child adds
/// its `ImmunizationDt` values to the open record, and the parent's close tag
/// finalizes it.
pub open spec fn health_step(st: HealthScan, ev: EventView) -> HealthScan {
    match ev {
        EventView::Open { name, attrs } => if name == "HealthImmunizationListing"@ {
            HealthScan { done: st.done, cur: Some(immunization_from_attrs(attrs)) }
        } else {
            st
        },
        EventView::SelfClose { name, attrs } => if name == "ImmunizationDate"@ && st.cur is Some {
            let c = st.cur->0;
            HealthScan {
                done: st.done,
                cur: Some(
                    HealthImmunizationView {
                        name: c.name,
                        compliant: c.compliant,
                        compliant_message: c.compliant_message,
                        required_doses: c.required_doses,
                        dates: c.dates + attr_values(attrs, "ImmunizationDt"@),
                    },
                ),
            }
        } else {
            st
        },
        EventView::Close { name } => if name == "HealthImmunizationListing"@ && st.cur is Some {
            HealthScan { done: st.done.push(st.cur->0), cur: None }
        } else {
            st
        },
        _ => st,
    }
}

/// The immunization state after a whole event sequence.
pub open spec fn health_scan(evs: Seq<EventView>) -> HealthScan
    decreases evs.len(),
{
    if evs.len() == 0 {
        HealthScan { done: Seq::empty(), cur: None }
    } else {
        health_step(health_scan(evs.drop_last()), evs.last())
    }
}

/// The immunizations denoted by an event sequence, in document order, each
/// with its dose dates in document order.
pub open spec fn immunizations_of(evs: Seq<EventView>) -> Seq<HealthImmunizationView> {
    health_scan(evs).done
}

/// Build one immunization record, without dates, from an element's attributes.
pub fn build_immunization(attrs: &Vec<Attr>) -> (h: HealthImmunization)
    ensures
        h@ == immunization_from_attrs(attrs.deep_view()),
{
    let h = HealthImmunization {
        name: attr_string(attrs, "Name"),
        compliant: attr_bool(attrs, "Compliant"),
        compliant_message: attr_string(attrs, "CompliantMessage"),
        required_doses: attr_string(attrs, "NumReqDoses"),
        dates: Vec::new(),
    };
    proof {
        assert(h.dates.deep_view() =~= Seq::<Seq<char>>::empty());
    }
    h
}

/// Project an event sequence into immunization records with nested dates.
///
/// Fails exactly when the pass reported malformed XML; otherwise runs the
/// immunization state machine over the events and yields the finished
/// records.
pub fn extract_health_immunizations(events: &Vec<XmlEvent>) -> (r: Result<
    Vec<HealthImmunization>,
    Error,
>)
    ensures
        match r {
            Ok(v) => !has_fault(events.deep_view()) && v.deep_view() == immunizations_of(
                events.deep_view(),
            ),
            Err(e) => has_fault(events.deep_view()) && (e matches Error::XmlParse(m) && m@
                == first_fault_msg(events.deep_view())),
        },
{
    let ghost evs = events.deep_view();
    let mut out: Vec<HealthImmunization> = Vec::new();
    let mut cur: Option<HealthImmunization> = None;
    let mut i: usize = 0;
    while i < events.len()
        invariant
            0 <= i <= events@.len(),
            evs == events.deep_view(),
            evs.len() == events@.len(),
            forall|j: int| 0 <= j < i ==> !(#[trigger] evs[j] is Fault),
            out.deep_view() == health_scan(evs.take(i as int)).done,
            cur.deep_view() == health_scan(evs.take(i as int)).cur,
        decreases events@.len() - i,
    {
        let ghost st = health_scan(evs.take(i as int));
        proof {
            assert(evs[i as int] == events@[i as int]@);
            assert(evs.take(i as int + 1).drop_last() =~= evs.take(i as int));
            assert(evs.take(i as int + 1).last() == evs[i as int]);
            assert(health_scan(evs.take(i as int + 1)) == health_step(st, evs[i as int]));
        }
        match &events[i] {
            XmlEvent::Open { name, attrs } => {
                if str_eq(name.as_str(), "HealthImmunizationListing") {
                    cur = Some(build_immunization(attrs));
                }
            }
            XmlEvent::SelfClose { name, attrs } => {
                if str_eq(name.as_str(), "ImmunizationDate") {
                    cur = match cur {
                        Some(im) => {
                            let mut im = im;
                            let mut vs = attr_strings(attrs, "ImmunizationDt");
                            let ghost dv = im.dates.deep_view();
                            let ghost vv = vs.deep_view();
                            im.dates.append(&mut vs);
                            proof {
                                assert(im.dates.deep_view() =~= dv + vv);
                            }
                            Some(im)
                        },
                        None => None,
                    };
                }
            }
            XmlEvent::Close { name } => {
                if str_eq(name.as_str(), "HealthImmunizationListing") {
                    let taken = cur;
                    cur = None;
                    match taken {
                        Some(im) => {
                            let ghost ov = out.deep_view();
                            let ghost iv = im@;
                            out.push(im);
                            proof {
                                assert(out.deep_view() =~= ov.push(iv));
                            }
                        },
                        None => {},
                    }
                }
            }
            XmlEvent::Fault { message } => {
                proof {
                    lemma_first_fault(evs, i as int);
                }
                return Err(Error::XmlParse(message.clone()));
            }
            _ => {},
        }
        i = i + 1;
    }
    proof {
        assert(evs.take(evs.len() as int) =~= evs);
    }
    Ok(out)
}

/// The running state of the student-info scan: the most recently opened tag
/// (the current field selector), the record so far, and the first parse
/// fault, if any. Once a fault is recorded the scan stops changing.
pub struct StudentScan {
    pub cur: Seq<char>,
    pub rec: StudentInfoView,
    pub fault: Option<Seq<char>>,
}

/// A student record with every field empty.
pub open spec fn student_empty() -> StudentInfoView {
    StudentInfoView {
        name: Seq::empty(),
        perm_id: Seq::empty(),
        gender: Seq::empty(),
        grade: Seq::empty(),
        address: Seq::empty(),
        birth_date: Seq::empty(),
        email: Seq::empty(),
        phone: Seq::empty(),
        current_school: Seq::empty(),
        home_room_teacher: Seq::empty(),
        home_room_teacher_email: Seq::empty(),
        counselor: Seq::empty(),
    }
}

/// Overwrite the field selected by `tag` with the text `t`; unknown tags
/// change nothing. Last write wins.
pub open spec fn student_set_field(rec: StudentInfoView, tag: Seq<char>, t: Seq<char>) -> StudentInfoView {
    if tag == "FormattedName"@ {
        StudentInfoView { name: t, ..rec }
    } else if tag == "PermID"@ {
        StudentInfoView { perm_id: t, ..rec }
    } else if tag == "Gender"@ {
        StudentInfoView { gender: t, ..rec }
    } else if tag == "Grade"@ {
        StudentInfoView { grade: t, ..rec }
    } else if tag == "Address"@ {
        StudentInfoView { address: t, ..rec }
    } else if tag == "BirthDate"@ {
        StudentInfoView { birth_date: t, ..rec }
    } else if tag == "EMail"@ {
        StudentInfoView { email: t, ..rec }
    } else if tag == "Phone"@ {
        StudentInfoView { phone: t, ..rec }
    } else if tag == "CurrentSchool"@ {
        StudentInfoView { current_school: t, ..rec }
    } else if tag == "HomeRoomTch"@ {
        StudentInfoView { home_room_teacher: t, ..rec }
    } else if tag == "HomeRoomTchEMail"@ {
        StudentInfoView { home_room_teacher_email: t, ..rec }
    } else if tag == "CounselorName"@ {
        StudentInfoView { counselor: t, ..rec }
    } else {
        rec
    }
}

/// One step of the student-info scan: a start tag selects the field, text
/// fills it, and text that fails to decode faults the scan.
pub open spec fn student_step(st: StudentScan, ev: EventView) -> StudentScan {
    if st.fault is Some {
        st
    } else {
        match ev {
            EventView::Open { name, .. } => StudentScan { cur: name, rec: st.rec, fault: st.fault },
            EventView::Text { text } => match text {
                Ok(t) => StudentScan {
                    cur: st.cur,
                    rec: student_set_field(st.rec, st.cur, t),
                    fault: st.fault,
                },
                Err(m) => StudentScan { cur: st.cur, rec: st.rec, fault: Some(m) },
            },
            EventView::Fault { message } => StudentScan {
                cur: st.cur,
                rec: st.rec,
                fault: Some(message),
            },
            _ => st,
        }
    }
}

/// The student-info state after a whole event sequence.
pub open spec fn student_scan(evs: Seq<EventView>) -> StudentScan
    decreases evs.len(),
{
    if evs.len() == 0 {
        StudentScan { cur: Seq::empty(), rec: student_empty(), fault: None }
    } else {
        student_step(student_scan(evs.drop_last()), evs.last())
    }
}

/// A recorded fault never goes away: the scan of the whole sequence keeps
/// the fault its prefix recorded.
pub proof fn lemma_student_fault_persists(evs: Seq<EventView>, i: int)
    requires
        0 <= i <= evs.len(),
        student_scan(evs.take(i)).fault is Some,
    ensures
        student_scan(evs).fault == student_scan(evs.take(i)).fault,
    decreases evs.len() - i,
{
    if i == evs.len() {
        assert(evs.take(i) =~= evs);
    } else {
        assert(evs.take(i + 1).drop_last() =~= evs.take(i));
        assert(evs.take(i + 1).last() == evs[i]);
        assert(student_scan(evs.take(i + 1)) == student_step(student_scan(evs.take(i)), evs[i]));
        lemma_student_fault_persists(evs, i + 1);
    }
}

/// Project an event sequence into the student record.
///
/// Tracks the most recently opened tag and fills the field it names from
/// each text node, last write winning; fails exactly when the pass reported
/// malformed XML or a text node failed to decode.
pub fn extract_student_info(events: &Vec<XmlEvent>) -> (r: Result<StudentInfo, Error>)
    ensures
        match r {
            Ok(v) => student_scan(events.deep_view()).fault is None && v@ == student_scan(
                events.deep_view(),
            ).rec,
            Err(e) => e matches Error::XmlParse(m) && student_scan(events.deep_view()).fault
                == Some(m@),
        },
{
    let ghost evs = events.deep_view();
    let mut rec = StudentInfo {
        name: String::new(),
        perm_id: String::new(),
        gender: String::new(),
        grade: String::new(),
        address: String::new(),
        birth_date: String::new(),
        email: String::new(),
        phone: String::new(),
        current_school: String::new(),
        home_room_teacher: String::new(),
        home_room_teacher_email: String::new(),
        counselor: String::new(),
    };
    let mut cur = String::new();
    let mut i: usize = 0;
    while i < events.len()
        invariant
            0 <= i <= events@.len(),
            evs == events.deep_view(),
            evs.len() == events@.len(),
            student_scan(evs.take(i as int)).fault is None,
            cur@ == student_scan(evs.take(i as int)).cur,
            rec@ == student_scan(evs.take(i as int)).rec,
        decreases events@.len() - i,
    {
        let ghost st = student_scan(evs.take(i as int));
        proof {
            assert(evs[i as int] == events@[i as int]@);
            assert(evs.take(i as int + 1).drop_last() =~= evs.take(i as int));
            assert(evs.take(i as int + 1).last() == evs[i as int]);
            assert(student_scan(evs.take(i as int + 1)) == student_step(st, evs[i as int]));
        }
        match &events[i] {
            XmlEvent::Open { name, .. } => {
                cur = name.clone();
            }
            XmlEvent::Text { text } => {
                match text {
                    Ok(t) => {
                        if str_eq(cur.as_str(), "FormattedName") {
                            rec.name = t.clone();
                        } else if str_eq(cur.as_str(), "PermID") {
                            rec.perm_id = t.clone();
                        } else if str_eq(cur.as_str(), "Gender") {
                            rec.gender = t.clone();
                        } else if str_eq(cur.as_str(), "Grade") {
                            rec.grade = t.clone();
                        } else if str_eq(cur.as_str(), "Address") {
                            rec.address = t.clone();
                        } else if str_eq(cur.as_str(), "BirthDate") {
                            rec.birth_date = t.clone();
                        } else if str_eq(cur.as_str(), "EMail") {
                            rec.email = t.clone();
                        } else if str_eq(cur.as_str(), "Phone") {
                            rec.phone = t.clone();
                        } else if str_eq(cur.as_str(), "CurrentSchool") {
                            rec.current_school = t.clone();
                        } else if str_eq(cur.as_str(), "HomeRoomTch") {
                            rec.home_room_teacher = t.clone();
                        } else if str_eq(cur.as_str(), "HomeRoomTchEMail") {
                            rec.home_room_teacher_email = t.clone();
                        } else if str_eq(cur.as_str(), "CounselorName") {
                            rec.counselor = t.clone();
                        }
                    }
                    Err(m) => {
                        proof {
                            lemma_student_fault_persists(evs, i as int + 1);
                        }
                        return Err(Error::XmlParse(m.clone()));
                    }
                }
            }
            XmlEvent::Fault { message } => {
                proof {
                    lemma_student_fault_persists(evs, i as int + 1);
                }
                return Err(Error::XmlParse(message.clone()));
            }
            _ => {}
        }
        i = i + 1;
    }
    proof {
        assert(evs.take(evs.len() as int) =~= evs);
    }
    Ok(rec)
}

/// The running state of the document-download scan: the current field
/// selector, the record so far, and the first parse fault, if any.
pub struct DocScan {
    pub cur: Seq<char>,
    pub rec: DocumentDataView,
    pub fault: Option<Seq<char>>,
}

/// A document-data record with every field empty.
pub open spec fn document_data_empty() -> DocumentDataView {
    DocumentDataView {
        document_gu: Seq::empty(),
        file_name: Seq::empty(),
        doc_type: Seq::empty(),
        base64_content: Seq::empty(),
    }
}

/// One step of the document-download scan: a `DocumentData` start tag fills
/// the metadata fields from its attributes (keeping earlier values where an
/// attribute is missing), any other start tag selects the current field, and
/// text under a `Base64Code` selector fills the content, last write winning.
pub open spec fn document_data_step(st: DocScan, ev: EventView) -> DocScan {
    if st.fault is Some {
        st
    } else {
        match ev {
            EventView::Open { name, attrs } => if name == "DocumentData"@ {
                DocScan {
                    cur: st.cur,
                    rec: DocumentDataView {
                        document_gu: attr_or(attrs, "DocumentGU"@, st.rec.document_gu),
                        file_name: attr_or(attrs, "FileName"@, st.rec.file_name),
                        doc_type: attr_or(attrs, "DocType"@, st.rec.doc_type),
                        base64_content: st.rec.base64_content,
                    },
                    fault: st.fault,
                }
            } else {
                DocScan { cur: name, rec: st.rec, fault: st.fault }
            },
            EventView::Text { text } => if st.cur == "Base64Code"@ {
                match text {
                    Ok(t) => DocScan {
                        cur: st.cur,
                        rec: DocumentDataView { base64_content: t, ..st.rec },
                        fault: st.fault,
                    },
                    Err(m) => DocScan { cur: st.cur, rec: st.rec, fault: Some(m) },
                }
            } else {
                st
            },
            EventView::Fault { message } => DocScan {
                cur: st.cur,
                rec: st.rec,
                fault: Some(message),
            },
            _ => st,
        }
    }
}

/// The document-download state after a whole event sequence.
pub open spec fn document_data_scan(evs: Seq<EventView>) -> DocScan
    decreases evs.len(),
{
    if evs.len() == 0 {
        DocScan { cur: Seq::empty(), rec: document_data_empty(), fault: None }
    } else {
        document_data_step(document_data_scan(evs.drop_last()), evs.last())
    }
}

/// A recorded fault never goes away: the scan of the whole sequence keeps
/// the fault its prefix recorded.
pub proof fn lemma_document_data_fault_persists(evs: Seq<EventView>, i: int)
    requires
        0 <= i <= evs.len(),
        document_data_scan(evs.take(i)).fault is Some,
    ensures
        document_data_scan(evs).fault == document_data_scan(evs.take(i)).fault,
    decreases evs.len() - i,
{
    if i == evs.len() {
        assert(evs.take(i) =~= evs);
    } else {
        assert(evs.take(i + 1).drop_last() =~= evs.take(i));
        assert(evs.take(i + 1).last() == evs[i]);
        assert(document_data_scan(evs.take(i + 1)) == document_data_step(
            document_data_scan(evs.take(i)),
            evs[i],
        ));
        lemma_document_data_fault_persists(evs, i + 1);
    }
}

/// Project an event sequence into a downloaded document.
///
/// The `DocumentData` element's attributes give the metadata; the text under
/// a `Base64Code` tag gives the content. Fails exactly when the pass
/// reported malformed XML or the content text failed to decode.
pub fn extract_document_data(events: &Vec<XmlEvent>) -> (r: Result<DocumentData, Error>)
    ensures
        match r {
            Ok(v) => document_data_scan(events.deep_view()).fault is None && v@
                == document_data_scan(events.deep_view()).rec,
            Err(e) => e matches Error::XmlParse(m) && document_data_scan(
                events.deep_view(),
            ).fault == Some(m@),
        },
{
    let ghost evs = events.deep_view();
    let mut rec = DocumentData {
        document_gu: String::new(),
        file_name: String::new(),
        doc_type: String::new(),
        base64_content: String::new(),
    };
    let mut cur = String::new();
    let mut i: usize = 0;
    while i < events.len()
        invariant
            0 <= i <= events@.len(),
            evs == events.deep_view(),
            evs.len() == events@.len(),
            document_data_scan(evs.take(i as int)).fault is None,
            cur@ == document_data_scan(evs.take(i as int)).cur,
            rec@ == document_data_scan(evs.take(i as int)).rec,
        decreases events@.len() - i,
    {
        let ghost st = document_data_scan(evs.take(i as int));
        proof {
            assert(evs[i as int] == events@[i as int]@);
            assert(evs.take(i as int + 1).drop_last() =~= evs.take(i as int));
            assert(evs.take(i as int + 1).last() == evs[i as int]);
            assert(document_data_scan(evs.take(i as int + 1)) == document_data_step(
                st,
                evs[i as int],
            ));
        }
        match &events[i] {
            XmlEvent::Open { name, attrs } => {
                if str_eq(name.as_str(), "DocumentData") {
                    rec.document_gu = attr_string_or(attrs, "DocumentGU", rec.document_gu.clone());
                    rec.file_name = attr_string_or(attrs, "FileName", rec.file_name.clone());
                    rec.doc_type = attr_string_or(attrs, "DocType", rec.doc_type.clone());
                } else {
                    cur = name.clone();
                }
            }
            XmlEvent::Text { text } => {
                if str_eq(cur.as_str(), "Base64Code") {
                    match text {
                        Ok(t) => {
                            rec.base64_content = t.clone();
                        }
                        Err(m) => {
                            proof {
                                lemma_document_data_fault_persists(evs, i as int + 1);
                            }
                            return Err(Error::XmlParse(m.clone()));
                        }
                    }
                }
            }
            XmlEvent::Fault { message } => {
                proof {
                    lemma_document_data_fault_persists(evs, i as int + 1);
                }
                return Err(Error::XmlParse(message.clone()));
            }
            _ => {}
        }
        i = i + 1;
    }
    proof {
        assert(evs.take(evs.len() as int) =~= evs);
    }
    Ok(rec)
}

/// The running state of the attachment scan: the current field selector, the
/// attachment name, the base64 content, and the first parse fault, if any.
pub struct AttachScan {
    pub cur: Seq<char>,
    pub file_name: Seq<char>,
    pub base64_content: Seq<char>,
    pub fault: Option<Seq<char>>,
}

/// One step of the attachment scan: an `AttachmentXML` start tag gives the
/// document name, any other start tag selects the current field, and text
/// under a `Base64Code` selector fills the content.
pub open spec fn attachment_step(st: AttachScan, ev: EventView) -> AttachScan {
    if st.fault is Some {
        st
    } else {
        match ev {
            EventView::Open { name, attrs } => if name == "AttachmentXML"@ {
                AttachScan {
                    cur: st.cur,
                    file_name: attr_or(attrs, "DocumentName"@, st.file_name),
                    base64_content: st.base64_content,
                    fault: st.fault,
                }
            } else {
                AttachScan {
                    cur: name,
                    file_name: st.file_name,
                    base64_content: st.base64_content,
                    fault: st.fault,
                }
            },
            EventView::Text { text } => if st.cur == "Base64Code"@ {
                match text {
                    Ok(t) => AttachScan {
                        cur: st.cur,
                        file_name: st.file_name,
                        base64_content: t,
                        fault: st.fault,
                    },
                    Err(m) => AttachScan {
                        cur: st.cur,
                        file_name: st.file_name,
                        base64_content: st.base64_content,
                        fault: Some(m),
                    },
                }
            } else {
                st
            },
            EventView::Fault { message } => AttachScan {
                cur: st.cur,
                file_name: st.file_name,
                base64_content: st.base64_content,
                fault: Some(message),
            },
            _ => st,
        }
    }
}

/// The attachment state after a whole event sequence.
pub open spec fn attachment_scan(evs: Seq<EventView>) -> AttachScan
    decreases evs.len(),
{
    if evs.len() == 0 {
        AttachScan {
            cur: Seq::empty(),
            file_name: Seq::empty(),
            base64_content: Seq::empty(),
            fault: None,
        }
    } else {
        attachment_step(attachment_scan(evs.drop_last()), evs.last())
    }
}

/// A recorded fault never goes away: the scan of the whole sequence keeps
/// the fault its prefix recorded.
pub proof fn lemma_attachment_fault_persists(evs: Seq<EventView>, i: int)
    requires
        0 <= i <= evs.len(),
        attachment_scan(evs.take(i)).fault is Some,
    ensures
        attachment_scan(evs).fault == attachment_scan(evs.take(i)).fault,
    decreases evs.len() - i,
{
    if i == evs.len() {
        assert(evs.take(i) =~= evs);
    } else {
        assert(evs.take(i + 1).drop_last() =~= evs.take(i));
        assert(evs.take(i + 1).last() == evs[i]);
        assert(attachment_scan(evs.take(i + 1)) == attachment_step(
            attachment_scan(evs.take(i)),
            evs[i],
        ));
        lemma_attachment_fault_persists(evs, i + 1);
    }
}

/// Project an event sequence into a message attachment.
///
/// The `AttachmentXML` element names the file; the text under a `Base64Code`
/// tag gives the content. The record's identifier is empty and its type
/// unknown: the service does not report them for attachments. Fails exactly
/// when the pass reported malformed XML or the content text failed to decode.
pub fn extract_attachment_data(events: &Vec<XmlEvent>) -> (r: Result<DocumentData, Error>)
    ensures
        match r {
            Ok(v) => attachment_scan(events.deep_view()).fault is None && v@
                == (DocumentDataView {
                document_gu: Seq::empty(),
                file_name: attachment_scan(events.deep_view()).file_name,
                doc_type: "unknown"@,
                base64_content: attachment_scan(events.deep_view()).base64_content,
            }),
            Err(e) => e matches Error::XmlParse(m) && attachment_scan(events.deep_view()).fault
                == Some(m@),
        },
{
    let ghost evs = events.deep_view();
    let mut file_name = String::new();
    let mut base64_content = String::new();
    let mut cur = String::new();
    let mut i: usize = 0;
    while i < events.len()
        invariant
            0 <= i <= events@.len(),
            evs == events.deep_view(),
            evs.len() == events@.len(),
            attachment_scan(evs.take(i as int)).fault is None,
            cur@ == attachment_scan(evs.take(i as int)).cur,
            file_name@ == attachment_scan(evs.take(i as int)).file_name,
            base64_content@ == attachment_scan(evs.take(i as int)).base64_content,
        decreases events@.len() - i,
    {
        let ghost st = attachment_scan(evs.take(i as int));
        proof {
            assert(evs[i as int] == events@[i as int]@);
            assert(evs.take(i as int + 1).drop_last() =~= evs.take(i as int));
            assert(evs.take(i as int + 1).last() == evs[i as int]);
            assert(attachment_scan(evs.take(i as int + 1)) == attachment_step(st, evs[i as int]));
        }
        match &events[i] {
            XmlEvent::Open { name, attrs } => {
                if str_eq(name.as_str(), "AttachmentXML") {
                    file_name = attr_string_or(attrs, "DocumentName", file_name);
                } else {
                    cur = name.clone();
                }
            }
            XmlEvent::Text { text } => {
                if str_eq(cur.as_str(), "Base64Code") {
                    match text {
                        Ok(t) => {
                            base64_content = t.clone();
                        }
                        Err(m) => {
                            proof {
                                lemma_attachment_fault_persists(evs, i as int + 1);
                            }
                            return Err(Error::XmlParse(m.clone()));
                        }
                    }
                }
            }
            XmlEvent::Fault { message } => {
                proof {
                    lemma_attachment_fault_persists(evs, i as int + 1);
                }
                return Err(Error::XmlParse(message.clone()));
            }
            _ => {}
        }
        i = i + 1;
    }
    proof {
        assert(evs.take(evs.len() as int) =~= evs);
    }
    Ok(DocumentData { document_gu: String::new(), file_name, doc_type: "unknown".to_owned(), base64_content })
}

/// Parse an XML payload into district records.
pub fn parse_districts(xml: &str) -> (r: Result<Vec<DistrictInfo>, Error>)
    ensures
        match r {
            Ok(v) => !has_fault(xml_events(xml@)) && v.deep_view() == districts_of(
                xml_events(xml@),
            ),
            Err(e) => has_fault(xml_events(xml@)) && (e matches Error::XmlParse(m) && m@
                == first_fault_msg(xml_events(xml@))),
        },
{
    let events = tokenize(xml);
    extract_districts(&events)
}

/// Parse an XML payload into message records.
pub fn parse_messages(xml: &str) -> (r: Result<Vec<Message>, Error>)
    ensures
        match r {
            Ok(v) => !has_fault(xml_events(xml@)) && v.deep_view() == messages_of(xml_events(xml@)),
            Err(e) => has_fault(xml_events(xml@)) && (e matches Error::XmlParse(m) && m@
                == first_fault_msg(xml_events(xml@))),
        },
{
    let events = tokenize(xml);
    extract_messages(&events)
}

/// Parse an XML payload into calendar entries.
pub fn parse_calendar(xml: &str) -> (r: Result<Vec<CalendarEvent>, Error>)
    ensures
        match r {
            Ok(v) => !has_fault(xml_events(xml@)) && v.deep_view() == calendar_events_of(
                xml_events(xml@),
            ),
            Err(e) => has_fault(xml_events(xml@)) && (e matches Error::XmlParse(m) && m@
                == first_fault_msg(xml_events(xml@))),
        },
{
    let events = tokenize(xml);
    extract_calendar(&events)
}

/// Parse an XML payload into absence records with nested periods.
pub fn parse_attendance(xml: &str) -> (r: Result<Vec<Absence>, Error>)
    ensures
        match r {
            Ok(v) => !has_fault(xml_events(xml@)) && v.deep_view() == absences_of(xml_events(xml@)),
            Err(e) => has_fault(xml_events(xml@)) && (e matches Error::XmlParse(m) && m@
                == first_fault_msg(xml_events(xml@))),
        },
{
    let events = tokenize(xml);
    extract_attendance(&events)
}

/// Parse an XML payload into gradebook courses.
pub fn parse_gradebook(xml: &str) -> (r: Result<Vec<Course>, Error>)
    ensures
        match r {
            Ok(v) => !has_fault(xml_events(xml@)) && v.deep_view() == courses_of(xml_events(xml@)),
            Err(e) => has_fault(xml_events(xml@)) && (e matches Error::XmlParse(m) && m@
                == first_fault_msg(xml_events(xml@))),
        },
{
    let events = tokenize(xml);
    extract_gradebook(&events)
}

/// Parse an XML payload into immunization records with nested dates.
pub fn parse_health_immunizations(xml: &str) -> (r: Result<Vec<HealthImmunization>, Error>)
    ensures
        match r {
            Ok(v) => !has_fault(xml_events(xml@)) && v.deep_view() == immunizations_of(
                xml_events(xml@),
            ),
            Err(e) => has_fault(xml_events(xml@)) && (e matches Error::XmlParse(m) && m@
                == first_fault_msg(xml_events(xml@))),
        },
{
    let events = tokenize(xml);
    extract_health_immunizations(&events)
}

/// Parse an XML payload into the student record.
pub fn parse_student_info(xml: &str) -> (r: Result<StudentInfo, Error>)
    ensures
        match r {
            Ok(v) => student_scan(xml_events(xml@)).fault is None && v@ == student_scan(
                xml_events(xml@),
            ).rec,
            Err(e) => e matches Error::XmlParse(m) && student_scan(xml_events(xml@)).fault == Some(
                m@,
            ),
        },
{
    let events = tokenize(xml);
    extract_student_info(&events)
}

/// Parse an XML payload into scheduled classes.
pub fn parse_class_schedule(xml: &str) -> (r: Result<Vec<ClassSchedule>, Error>)
    ensures
        match r {
            Ok(v) => !has_fault(xml_events(xml@)) && v.deep_view() == class_schedules_of(
                xml_events(xml@),
            ),
            Err(e) => has_fault(xml_events(xml@)) && (e matches Error::XmlParse(m) && m@
                == first_fault_msg(xml_events(xml@))),
        },
{
    let events = tokenize(xml);
    extract_class_schedule(&events)
}

/// Parse an XML payload into the single school record: first match wins,
/// absence of any match is a failure.
pub fn parse_school_info(xml: &str) -> (r: Result<SchoolInfo, Error>)
    ensures
        match r {
            Ok(v) => school_scan(xml_events(xml@)) matches SchoolScan::Found(a) && v@
                == school_from_attrs(a),
            Err(e) => match e {
                Error::XmlParse(m) => school_scan(xml_events(xml@)) matches SchoolScan::Faulted(f)
                    && m@ == f,
                Error::InvalidResponse(m) => school_scan(xml_events(xml@)) is Missing && m@
                    == "No school info found"@,
                _ => false,
            },
        },
{
    let events = tokenize(xml);
    extract_school_info(&events)
}

/// Parse an XML payload into report cards.
pub fn parse_report_cards(xml: &str) -> (r: Result<Vec<ReportCard>, Error>)
    ensures
        match r {
            Ok(v) => !has_fault(xml_events(xml@)) && v.deep_view() == report_cards_of(
                xml_events(xml@),
            ),
            Err(e) => has_fault(xml_events(xml@)) && (e matches Error::XmlParse(m) && m@
                == first_fault_msg(xml_events(xml@))),
        },
{
    let events = tokenize(xml);
    extract_report_cards(&events)
}

/// Parse an XML payload into document records.
pub fn parse_documents(xml: &str) -> (r: Result<Vec<Document>, Error>)
    ensures
        match r {
            Ok(v) => !has_fault(xml_events(xml@)) && v.deep_view() == documents_of(
                xml_events(xml@),
            ),
            Err(e) => has_fault(xml_events(xml@)) && (e matches Error::XmlParse(m) && m@
                == first_fault_msg(xml_events(xml@))),
        },
{
    let events = tokenize(xml);
    extract_documents(&events)
}

/// Parse an XML payload into a downloaded document.
pub fn parse_document_data(xml: &str) -> (r: Result<DocumentData, Error>)
    ensures
        match r {
            Ok(v) => document_data_scan(xml_events(xml@)).fault is None && v@
                == document_data_scan(xml_events(xml@)).rec,
            Err(e) => e matches Error::XmlParse(m) && document_data_scan(xml_events(xml@)).fault
                == Some(m@),
        },
{
    let events = tokenize(xml);
    extract_document_data(&events)
}

/// Parse an XML payload into a message attachment.
pub fn parse_attachment_data(xml: &str) -> (r: Result<DocumentData, Error>)
    ensures
        match r {
            Ok(v) => attachment_scan(xml_events(xml@)).fault is None && v@ == (DocumentDataView {
                document_gu: Seq::empty(),
                file_name: attachment_scan(xml_events(xml@)).file_name,
                doc_type: "unknown"@,
                base64_content: attachment_scan(xml_events(xml@)).base64_content,
            }),
            Err(e) => e matches Error::XmlParse(m) && attachment_scan(xml_events(xml@)).fault
                == Some(m@),
        },
{
    let events = tokenize(xml);
    extract_attachment_data(&events)
}

} // verus!
