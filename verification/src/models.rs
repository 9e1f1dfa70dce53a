//! The typed records that the record parser produces.
//!
//! Every record is a bag of plain string fields (plus the occasional boolean
//! or nested list) filled from attributes or text content of the service's
//! XML payloads. Each exec type has a view type giving its mathematical
//! content, which the extractor contracts speak of.

use vstd::prelude::*;

verus! {

/// A school district found by ZIP-code lookup.
#[derive(Debug, Clone)]
pub struct DistrictInfo {
    pub name: String,
    pub address: String,
    pub url: String,
}

pub struct DistrictInfoView {
    pub name: Seq<char>,
    pub address: Seq<char>,
    pub url: Seq<char>,
}

impl View for DistrictInfo {
    type V = DistrictInfoView;

    open spec fn view(&self) -> DistrictInfoView {
        DistrictInfoView { name: self.name@, address: self.address@, url: self.url@ }
    }
}

impl DeepView for DistrictInfo {
    type V = DistrictInfoView;

    open spec fn deep_view(&self) -> DistrictInfoView {
        self@
    }
}

/// One message in the student's inbox.
#[derive(Debug, Clone)]
pub struct Message {
    pub id: String,
    pub subject: String,
    pub content: String,
    pub from: String,
    pub date: String,
    pub read: bool,
    pub deletable: bool,
    pub message_type: String,
}

pub struct MessageView {
    pub id: Seq<char>,
    pub subject: Seq<char>,
    pub content: Seq<char>,
    pub from: Seq<char>,
    pub date: Seq<char>,
    pub read: bool,
    pub deletable: bool,
    pub message_type: Seq<char>,
}

impl View for Message {
    type V = MessageView;

    open spec fn view(&self) -> MessageView {
        MessageView {
            id: self.id@,
            subject: self.subject@,
            content: self.content@,
            from: self.from@,
            date: self.date@,
            read: self.read,
            deletable: self.deletable,
            message_type: self.message_type@,
        }
    }
}

impl DeepView for Message {
    type V = MessageView;

    open spec fn deep_view(&self) -> MessageView {
        self@
    }
}

/// One entry of the student calendar.
#[derive(Debug, Clone)]
pub struct CalendarEvent {
    pub date: String,
    pub title: String,
    pub icon: String,
    pub day_type: String,
}

pub struct CalendarEventView {
    pub date: Seq<char>,
    pub title: Seq<char>,
    pub icon: Seq<char>,
    pub day_type: Seq<char>,
}

impl View for CalendarEvent {
    type V = CalendarEventView;

    open spec fn view(&self) -> CalendarEventView {
        CalendarEventView {
            date: self.date@,
            title: self.title@,
            icon: self.icon@,
            day_type: self.day_type@,
        }
    }
}

impl DeepView for CalendarEvent {
    type V = CalendarEventView;

    open spec fn deep_view(&self) -> CalendarEventView {
        self@
    }
}

/// One class period affected by an absence.
#[derive(Debug, Clone)]
pub struct AbsencePeriod {
    pub number: String,
    pub name: String,
    pub reason: String,
    pub course: String,
    pub staff: String,
    pub staff_email: String,
}

pub struct AbsencePeriodView {
    pub number: Seq<char>,
    pub name: Seq<char>,
    pub reason: Seq<char>,
    pub course: Seq<char>,
    pub staff: Seq<char>,
    pub staff_email: Seq<char>,
}

impl View for AbsencePeriod {
    type V = AbsencePeriodView;

    open spec fn view(&self) -> AbsencePeriodView {
        AbsencePeriodView {
            number: self.number@,
            name: self.name@,
            reason: self.reason@,
            course: self.course@,
            staff: self.staff@,
            staff_email: self.staff_email@,
        }
    }
}

impl DeepView for AbsencePeriod {
    type V = AbsencePeriodView;

    open spec fn deep_view(&self) -> AbsencePeriodView {
        self@
    }
}

/// One absence, with the periods it covered.
#[derive(Debug, Clone)]
pub struct Absence {
    pub date: String,
    pub reason: String,
    pub note: String,
    pub periods: Vec<AbsencePeriod>,
}

pub struct AbsenceView {
    pub date: Seq<char>,
    pub reason: Seq<char>,
    pub note: Seq<char>,
    pub periods: Seq<AbsencePeriodView>,
}

impl View for Absence {
    type V = AbsenceView;

    open spec fn view(&self) -> AbsenceView {
        AbsenceView {
            date: self.date@,
            reason: self.reason@,
            note: self.note@,
            periods: self.periods.deep_view(),
        }
    }
}

impl DeepView for Absence {
    type V = AbsenceView;

    open spec fn deep_view(&self) -> AbsenceView {
        self@
    }
}

/// One graded assignment of a course.
#[derive(Debug, Clone)]
pub struct Assignment {
    pub measure: String,
    pub assignment_type: String,
    pub date: String,
    pub due_date: String,
    pub score: String,
    pub score_type: String,
    pub points: String,
    pub notes: String,
}

pub struct AssignmentView {
    pub measure: Seq<char>,
    pub assignment_type: Seq<char>,
    pub date: Seq<char>,
    pub due_date: Seq<char>,
    pub score: Seq<char>,
    pub score_type: Seq<char>,
    pub points: Seq<char>,
    pub notes: Seq<char>,
}

impl View for Assignment {
    type V = AssignmentView;

    open spec fn view(&self) -> AssignmentView {
        AssignmentView {
            measure: self.measure@,
            assignment_type: self.assignment_type@,
            date: self.date@,
            due_date: self.due_date@,
            score: self.score@,
            score_type: self.score_type@,
            points: self.points@,
            notes: self.notes@,
        }
    }
}

impl DeepView for Assignment {
    type V = AssignmentView;

    open spec fn deep_view(&self) -> AssignmentView {
        self@
    }
}

/// One grading-period mark of a course.
#[derive(Debug, Clone)]
pub struct Mark {
    pub mark_name: String,
    pub score: String,
    pub score_raw: Option<String>,
    pub assignments: Vec<Assignment>,
}

pub struct MarkView {
    pub mark_name: Seq<char>,
    pub score: Seq<char>,
    pub score_raw: Option<Seq<char>>,
    pub assignments: Seq<AssignmentView>,
}

impl View for Mark {
    type V = MarkView;

    open spec fn view(&self) -> MarkView {
        MarkView {
            mark_name: self.mark_name@,
            score: self.score@,
            score_raw: match &self.score_raw {
                Some(s) => Some(s@),
                None => None,
            },
            assignments: self.assignments.deep_view(),
        }
    }
}

impl DeepView for Mark {
    type V = MarkView;

    open spec fn deep_view(&self) -> MarkView {
        self@
    }
}

/// One course of the gradebook.
#[derive(Debug, Clone)]
pub struct Course {
    pub period: String,
    pub title: String,
    pub room: String,
    pub staff: String,
    pub staff_email: String,
    pub marks: Vec<Mark>,
}

pub struct CourseView {
    pub period: Seq<char>,
    pub title: Seq<char>,
    pub room: Seq<char>,
    pub staff: Seq<char>,
    pub staff_email: Seq<char>,
    pub marks: Seq<MarkView>,
}

impl View for Course {
    type V = CourseView;

    open spec fn view(&self) -> CourseView {
        CourseView {
            period: self.period@,
            title: self.title@,
            room: self.room@,
            staff: self.staff@,
            staff_email: self.staff_email@,
            marks: self.marks.deep_view(),
        }
    }
}

impl DeepView for Course {
    type V = CourseView;

    open spec fn deep_view(&self) -> CourseView {
        self@
    }
}

/// The student's demographic and contact record.
#[derive(Debug, Clone)]
pub struct StudentInfo {
    pub name: String,
    pub perm_id: String,
    pub gender: String,
    pub grade: String,
    pub address: String,
    pub birth_date: String,
    pub email: String,
    pub phone: String,
    pub current_school: String,
    pub home_room_teacher: String,
    pub home_room_teacher_email: String,
    pub counselor: String,
}

pub struct StudentInfoView {
    pub name: Seq<char>,
    pub perm_id: Seq<char>,
    pub gender: Seq<char>,
    pub grade: Seq<char>,
    pub address: Seq<char>,
    pub birth_date: Seq<char>,
    pub email: Seq<char>,
    pub phone: Seq<char>,
    pub current_school: Seq<char>,
    pub home_room_teacher: Seq<char>,
    pub home_room_teacher_email: Seq<char>,
    pub counselor: Seq<char>,
}

impl View for StudentInfo {
    type V = StudentInfoView;

    open spec fn view(&self) -> StudentInfoView {
        StudentInfoView {
            name: self.name@,
            perm_id: self.perm_id@,
            gender: self.gender@,
            grade: self.grade@,
            address: self.address@,
            birth_date: self.birth_date@,
            email: self.email@,
            phone: self.phone@,
            current_school: self.current_school@,
            home_room_teacher: self.home_room_teacher@,
            home_room_teacher_email: self.home_room_teacher_email@,
            counselor: self.counselor@,
        }
    }
}

impl DeepView for StudentInfo {
    type V = StudentInfoView;

    open spec fn deep_view(&self) -> StudentInfoView {
        self@
    }
}

/// One scheduled class of the student.
#[derive(Debug, Clone)]
pub struct ClassSchedule {
    pub period: String,
    pub course_title: String,
    pub room_name: String,
    pub teacher: String,
    pub teacher_email: String,
}

pub struct ClassScheduleView {
    pub period: Seq<char>,
    pub course_title: Seq<char>,
    pub room_name: Seq<char>,
    pub teacher: Seq<char>,
    pub teacher_email: Seq<char>,
}

impl View for ClassSchedule {
    type V = ClassScheduleView;

    open spec fn view(&self) -> ClassScheduleView {
        ClassScheduleView {
            period: self.period@,
            course_title: self.course_title@,
            room_name: self.room_name@,
            teacher: self.teacher@,
            teacher_email: self.teacher_email@,
        }
    }
}

impl DeepView for ClassSchedule {
    type V = ClassScheduleView;

    open spec fn deep_view(&self) -> ClassScheduleView {
        self@
    }
}

/// The student's school, principal and contact details.
#[derive(Debug, Clone)]
pub struct SchoolInfo {
    pub school: String,
    pub principal: String,
    pub address: String,
    pub city: String,
    pub state: String,
    pub zip: String,
    pub phone: String,
    pub url: String,
}

pub struct SchoolInfoView {
    pub school: Seq<char>,
    pub principal: Seq<char>,
    pub address: Seq<char>,
    pub city: Seq<char>,
    pub state: Seq<char>,
    pub zip: Seq<char>,
    pub phone: Seq<char>,
    pub url: Seq<char>,
}

impl View for SchoolInfo {
    type V = SchoolInfoView;

    open spec fn view(&self) -> SchoolInfoView {
        SchoolInfoView {
            school: self.school@,
            principal: self.principal@,
            address: self.address@,
            city: self.city@,
            state: self.state@,
            zip: self.zip@,
            phone: self.phone@,
            url: self.url@,
        }
    }
}

impl DeepView for SchoolInfo {
    type V = SchoolInfoView;

    open spec fn deep_view(&self) -> SchoolInfoView {
        self@
    }
}

/// One report card available for download.
#[derive(Debug, Clone)]
pub struct ReportCard {
    pub document_gu: String,
    pub reporting_period: String,
    pub end_date: String,
    pub message: String,
}

pub struct ReportCardView {
    pub document_gu: Seq<char>,
    pub reporting_period: Seq<char>,
    pub end_date: Seq<char>,
    pub message: Seq<char>,
}

impl View for ReportCard {
    type V = ReportCardView;

    open spec fn view(&self) -> ReportCardView {
        ReportCardView {
            document_gu: self.document_gu@,
            reporting_period: self.reporting_period@,
            end_date: self.end_date@,
            message: self.message@,
        }
    }
}

impl DeepView for ReportCard {
    type V = ReportCardView;

    open spec fn deep_view(&self) -> ReportCardView {
        self@
    }
}

/// One document in the student's document list.
#[derive(Debug, Clone)]
pub struct Document {
    pub document_gu: String,
    pub file_name: String,
    pub date: String,
    pub document_type: String,
    pub comment: String,
}

pub struct DocumentView {
    pub document_gu: Seq<char>,
    pub file_name: Seq<char>,
    pub date: Seq<char>,
    pub document_type: Seq<char>,
    pub comment: Seq<char>,
}

impl View for Document {
    type V = DocumentView;

    open spec fn view(&self) -> DocumentView {
        DocumentView {
            document_gu: self.document_gu@,
            file_name: self.file_name@,
            date: self.date@,
            document_type: self.document_type@,
            comment: self.comment@,
        }
    }
}

impl DeepView for Document {
    type V = DocumentView;

    open spec fn deep_view(&self) -> DocumentView {
        self@
    }
}

/// A downloaded document: metadata plus its base64-coded content.
#[derive(Debug, Clone)]
pub struct DocumentData {
    pub document_gu: String,
    pub file_name: String,
    pub doc_type: String,
    pub base64_content: String,
}

pub struct DocumentDataView {
    pub document_gu: Seq<char>,
    pub file_name: Seq<char>,
    pub doc_type: Seq<char>,
    pub base64_content: Seq<char>,
}

impl View for DocumentData {
    type V = DocumentDataView;

    open spec fn view(&self) -> DocumentDataView {
        DocumentDataView {
            document_gu: self.document_gu@,
            file_name: self.file_name@,
            doc_type: self.doc_type@,
            base64_content: self.base64_content@,
        }
    }
}

impl DeepView for DocumentData {
    type V = DocumentDataView;

    open spec fn deep_view(&self) -> DocumentDataView {
        self@
    }
}

/// One immunization series, with the dates of the doses received.
#[derive(Debug, Clone)]
pub struct HealthImmunization {
    pub name: String,
    pub compliant: bool,
    pub compliant_message: String,
    pub required_doses: String,
    pub dates: Vec<String>,
}

pub struct HealthImmunizationView {
    pub name: Seq<char>,
    pub compliant: bool,
    pub compliant_message: Seq<char>,
    pub required_doses: Seq<char>,
    pub dates: Seq<Seq<char>>,
}

impl View for HealthImmunization {
    type V = HealthImmunizationView;

    open spec fn view(&self) -> HealthImmunizationView {
        HealthImmunizationView {
            name: self.name@,
            compliant: self.compliant,
            compliant_message: self.compliant_message@,
            required_doses: self.required_doses@,
            dates: self.dates.deep_view(),
        }
    }
}

impl DeepView for HealthImmunization {
    type V = HealthImmunizationView;

    open spec fn deep_view(&self) -> HealthImmunizationView {
        self@
    }
}

} // verus!
