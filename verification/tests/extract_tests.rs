use studenvue::error::Error;
use studenvue::xml::{Attr, XmlEvent};
use studenvue::extract::{
    extract_messages, parse_attachment_data, parse_attendance, parse_calendar, parse_class_schedule,
    parse_districts, parse_document_data, parse_documents, parse_gradebook,
    parse_health_immunizations, parse_messages, parse_report_cards, parse_school_info,
    parse_student_info,
};

#[test]
fn message_flat_record() {
    let msgs =
        parse_messages("<MessageListing ID=\"1\" Subject=\"Hi\" From=\"X\" Read=\"true\" />")
            .unwrap();
    assert_eq!(msgs.len(), 1);
    assert_eq!(msgs[0].id, "1");
    assert_eq!(msgs[0].subject, "Hi");
    assert_eq!(msgs[0].from, "X");
    assert!(msgs[0].read);
    assert_eq!(msgs[0].content, "");
    assert_eq!(msgs[0].date, "");
    assert!(!msgs[0].deletable);
}

#[test]
fn message_boolean_is_exact_literal() {
    let msgs = parse_messages("<MessageListing Read=\"True\" Deletable=\"yes\" />").unwrap();
    assert_eq!(msgs.len(), 1);
    assert!(!msgs[0].read);
    assert!(!msgs[0].deletable);
}

#[test]
fn messages_keep_document_order() {
    let xml = "<root><MessageListing ID=\"a\"/><MessageListing ID=\"b\"/></root>";
    let msgs = parse_messages(xml).unwrap();
    assert_eq!(msgs.len(), 2);
    assert_eq!(msgs[0].id, "a");
    assert_eq!(msgs[1].id, "b");
}

#[test]
fn message_open_tag_not_collected() {
    // The flat shape collects self-closing elements only.
    let msgs = parse_messages("<MessageListing ID=\"1\"></MessageListing>").unwrap();
    assert_eq!(msgs.len(), 0);
}

#[test]
fn absence_nested_record() {
    let xml = "<Absence AbsenceDate=\"1/1\" Reason=\"Sick\"><Periods>\
<Period Number=\"1\" Name=\"Math\"/><Period Number=\"2\" Name=\"Art\"/>\
</Periods></Absence>";
    let absences = parse_attendance(xml).unwrap();
    assert_eq!(absences.len(), 1);
    assert_eq!(absences[0].date, "1/1");
    assert_eq!(absences[0].reason, "Sick");
    assert_eq!(absences[0].periods.len(), 2);
    assert_eq!(absences[0].periods[0].number, "1");
    assert_eq!(absences[0].periods[0].name, "Math");
    assert_eq!(absences[0].periods[1].number, "2");
    assert_eq!(absences[0].periods[1].name, "Art");
}

#[test]
fn absence_period_outside_group_is_ignored() {
    let xml = "<Absence AbsenceDate=\"1/1\"><Period Number=\"9\"/>\
<Periods><Period Number=\"1\"/></Periods></Absence>";
    let absences = parse_attendance(xml).unwrap();
    assert_eq!(absences.len(), 1);
    assert_eq!(absences[0].periods.len(), 1);
    assert_eq!(absences[0].periods[0].number, "1");
}

#[test]
fn absences_do_not_leak_children() {
    let xml = "<r><Absence AbsenceDate=\"1/1\"><Periods><Period Number=\"1\"/></Periods></Absence>\
<Absence AbsenceDate=\"2/2\"><Periods><Period Number=\"2\"/></Periods></Absence></r>";
    let absences = parse_attendance(xml).unwrap();
    assert_eq!(absences.len(), 2);
    assert_eq!(absences[0].date, "1/1");
    assert_eq!(absences[0].periods.len(), 1);
    assert_eq!(absences[0].periods[0].number, "1");
    assert_eq!(absences[1].date, "2/2");
    assert_eq!(absences[1].periods.len(), 1);
    assert_eq!(absences[1].periods[0].number, "2");
}

#[test]
fn school_info_singleton_missing_fails() {
    let r = parse_school_info("<root><Other/></root>");
    match r {
        Err(Error::InvalidResponse(m)) => assert_eq!(m, "No school info found"),
        _ => panic!("expected InvalidResponse"),
    }
}

#[test]
fn school_info_first_match_wins() {
    let xml = "<r><StudentSchoolInfoListing School=\"First\"/>\
<StudentSchoolInfoListing School=\"Second\"/></r>";
    let info = parse_school_info(xml).unwrap();
    assert_eq!(info.school, "First");
}

#[test]
fn school_info_ignores_malformed_tail_after_match() {
    // The first match returns immediately, without scanning further.
    let xml = "<r><StudentSchoolInfoListing School=\"S\" Principal=\"P\"/><Foo";
    let info = parse_school_info(xml).unwrap();
    assert_eq!(info.school, "S");
    assert_eq!(info.principal, "P");
}

#[test]
fn school_info_fields() {
    let xml = "<StudentSchoolInfoListing School=\"High\" Principal=\"Ms. P\" \
SchoolAddress=\"1 Way\" SchoolCity=\"Town\" SchoolState=\"CA\" SchoolZip=\"94102\" \
Phone=\"555\" URL=\"http://x\"/>";
    let info = parse_school_info(xml).unwrap();
    assert_eq!(info.school, "High");
    assert_eq!(info.principal, "Ms. P");
    assert_eq!(info.address, "1 Way");
    assert_eq!(info.city, "Town");
    assert_eq!(info.state, "CA");
    assert_eq!(info.zip, "94102");
    assert_eq!(info.phone, "555");
    assert_eq!(info.url, "http://x");
}

#[test]
fn malformed_input_fails_every_extractor() {
    let bad = "<Foo";
    assert!(matches!(parse_districts(bad), Err(Error::XmlParse(_))));
    assert!(matches!(parse_messages(bad), Err(Error::XmlParse(_))));
    assert!(matches!(parse_calendar(bad), Err(Error::XmlParse(_))));
    assert!(matches!(parse_attendance(bad), Err(Error::XmlParse(_))));
    assert!(matches!(parse_gradebook(bad), Err(Error::XmlParse(_))));
    assert!(matches!(parse_student_info(bad), Err(Error::XmlParse(_))));
    assert!(matches!(parse_class_schedule(bad), Err(Error::XmlParse(_))));
    assert!(matches!(parse_school_info(bad), Err(Error::XmlParse(_))));
    assert!(matches!(parse_report_cards(bad), Err(Error::XmlParse(_))));
    assert!(matches!(parse_documents(bad), Err(Error::XmlParse(_))));
    assert!(matches!(parse_document_data(bad), Err(Error::XmlParse(_))));
    assert!(matches!(parse_attachment_data(bad), Err(Error::XmlParse(_))));
}

#[test]
fn malformed_mismatched_end_tag_fails() {
    let r = parse_messages("<a><MessageListing ID=\"1\"/></b>");
    assert!(matches!(r, Err(Error::XmlParse(_))));
}

#[test]
fn districts_flat_records() {
    let xml = "<r><DistrictInfo Name=\"D1\" Address=\"A1\" PvueURL=\"U1\"/>\
<DistrictInfo Name=\"D2\" Address=\"A2\" PvueURL=\"U2\"/></r>";
    let ds = parse_districts(xml).unwrap();
    assert_eq!(ds.len(), 2);
    assert_eq!(ds[0].name, "D1");
    assert_eq!(ds[0].address, "A1");
    assert_eq!(ds[0].url, "U1");
    assert_eq!(ds[1].name, "D2");
}

#[test]
fn calendar_flat_records() {
    let xml = "<EventList Date=\"10/30/2025\" Title=\"Holiday\" DayType=\"H\" Icon=\"i\"/>";
    let events = parse_calendar(xml).unwrap();
    assert_eq!(events.len(), 1);
    assert_eq!(events[0].date, "10/30/2025");
    assert_eq!(events[0].title, "Holiday");
    assert_eq!(events[0].day_type, "H");
    assert_eq!(events[0].icon, "i");
}

#[test]
fn gradebook_reads_start_tags() {
    let xml = "<Course Period=\"1\" Title=\"Algebra\" Room=\"101\" Staff=\"T\" StaffEMail=\"t@x\">\
<Marks/></Course>";
    let courses = parse_gradebook(xml).unwrap();
    assert_eq!(courses.len(), 1);
    assert_eq!(courses[0].period, "1");
    assert_eq!(courses[0].title, "Algebra");
    assert_eq!(courses[0].room, "101");
    assert_eq!(courses[0].staff, "T");
    assert_eq!(courses[0].staff_email, "t@x");
    assert!(courses[0].marks.is_empty());
}

#[test]
fn class_schedule_flat_records() {
    let xml = "<ClassListing Period=\"2\" CourseTitle=\"Art\" RoomName=\"R\" Teacher=\"T\" TeacherEmail=\"t@x\"/>";
    let cs = parse_class_schedule(xml).unwrap();
    assert_eq!(cs.len(), 1);
    assert_eq!(cs[0].period, "2");
    assert_eq!(cs[0].course_title, "Art");
    assert_eq!(cs[0].room_name, "R");
    assert_eq!(cs[0].teacher, "T");
    assert_eq!(cs[0].teacher_email, "t@x");
}

#[test]
fn report_cards_flat_records() {
    let xml = "<RCReportingPeriod DocumentGU=\"g\" ReportingPeriodName=\"Q1\" EndDate=\"11/1\" Message=\"m\"/>";
    let cards = parse_report_cards(xml).unwrap();
    assert_eq!(cards.len(), 1);
    assert_eq!(cards[0].document_gu, "g");
    assert_eq!(cards[0].reporting_period, "Q1");
    assert_eq!(cards[0].end_date, "11/1");
    assert_eq!(cards[0].message, "m");
}

#[test]
fn documents_flat_records() {
    let xml = "<StudentDocumentData DocumentGU=\"g\" DocumentFileName=\"f.pdf\" \
DocumentDate=\"1/1\" DocumentType=\"T\" DocumentComment=\"c\"/>";
    let docs = parse_documents(xml).unwrap();
    assert_eq!(docs.len(), 1);
    assert_eq!(docs[0].document_gu, "g");
    assert_eq!(docs[0].file_name, "f.pdf");
    assert_eq!(docs[0].date, "1/1");
    assert_eq!(docs[0].document_type, "T");
    assert_eq!(docs[0].comment, "c");
}

#[test]
fn student_info_text_content() {
    let xml = "<StudentInfo><FormattedName>Jo Doe</FormattedName><PermID>42</PermID>\
<Gender>X</Gender><Grade>9</Grade><Address>1 Way</Address><BirthDate>1/1/2010</BirthDate>\
<EMail>jo@x</EMail><Phone>555</Phone><CurrentSchool>High</CurrentSchool>\
<HomeRoomTch>T</HomeRoomTch><HomeRoomTchEMail>t@x</HomeRoomTchEMail>\
<CounselorName>C</CounselorName><Unknown>ignored</Unknown></StudentInfo>";
    let info = parse_student_info(xml).unwrap();
    assert_eq!(info.name, "Jo Doe");
    assert_eq!(info.perm_id, "42");
    assert_eq!(info.gender, "X");
    assert_eq!(info.grade, "9");
    assert_eq!(info.address, "1 Way");
    assert_eq!(info.birth_date, "1/1/2010");
    assert_eq!(info.email, "jo@x");
    assert_eq!(info.phone, "555");
    assert_eq!(info.current_school, "High");
    assert_eq!(info.home_room_teacher, "T");
    assert_eq!(info.home_room_teacher_email, "t@x");
    assert_eq!(info.counselor, "C");
}

#[test]
fn student_info_unescapes_text() {
    let xml = "<FormattedName>A &amp; B</FormattedName>";
    let info = parse_student_info(xml).unwrap();
    assert_eq!(info.name, "A & B");
}

#[test]
fn student_info_missing_fields_default_empty() {
    let info = parse_student_info("<StudentInfo><Grade>9</Grade></StudentInfo>").unwrap();
    assert_eq!(info.grade, "9");
    assert_eq!(info.name, "");
    assert_eq!(info.email, "");
}

#[test]
fn document_data_attrs_and_content() {
    let xml = "<DocumentData DocumentGU=\"g\" FileName=\"f.pdf\" DocType=\"RC\">\
<Base64Code>QUJD</Base64Code></DocumentData>";
    let d = parse_document_data(xml).unwrap();
    assert_eq!(d.document_gu, "g");
    assert_eq!(d.file_name, "f.pdf");
    assert_eq!(d.doc_type, "RC");
    assert_eq!(d.base64_content, "QUJD");
}

#[test]
fn document_data_text_outside_selector_ignored() {
    let xml = "<DocumentData DocumentGU=\"g\"><Other>junk</Other>\
<Base64Code>QQ==</Base64Code></DocumentData>";
    let d = parse_document_data(xml).unwrap();
    assert_eq!(d.base64_content, "QQ==");
}

#[test]
fn attachment_data_fields() {
    let xml = "<AttachmentXML DocumentName=\"note.pdf\">\
<Base64Code>QkM=</Base64Code></AttachmentXML>";
    let d = parse_attachment_data(xml).unwrap();
    assert_eq!(d.file_name, "note.pdf");
    assert_eq!(d.base64_content, "QkM=");
    assert_eq!(d.document_gu, "");
    assert_eq!(d.doc_type, "unknown");
}

#[test]
fn health_immunizations_nested_dates() {
    let xml = "<HealthImmunizationListing Name=\"MMR\" Compliant=\"true\" \
CompliantMessage=\"ok\" NumReqDoses=\"2\">\
<ImmunizationDate ImmunizationDt=\"1/1/2015\"/>\
<ImmunizationDate ImmunizationDt=\"1/1/2016\"/>\
</HealthImmunizationListing>";
    let hs = parse_health_immunizations(xml).unwrap();
    assert_eq!(hs.len(), 1);
    assert_eq!(hs[0].name, "MMR");
    assert!(hs[0].compliant);
    assert_eq!(hs[0].compliant_message, "ok");
    assert_eq!(hs[0].required_doses, "2");
    assert_eq!(hs[0].dates, vec!["1/1/2015".to_string(), "1/1/2016".to_string()]);
}

#[test]
fn health_immunization_without_dates() {
    let xml = "<HealthImmunizationListing Name=\"Flu\" Compliant=\"false\">\
</HealthImmunizationListing>";
    let hs = parse_health_immunizations(xml).unwrap();
    assert_eq!(hs.len(), 1);
    assert_eq!(hs[0].name, "Flu");
    assert!(!hs[0].compliant);
    assert!(hs[0].dates.is_empty());
}

#[test]
fn empty_input_gives_empty_lists() {
    assert_eq!(parse_messages("").unwrap().len(), 0);
    assert_eq!(parse_districts("").unwrap().len(), 0);
    assert_eq!(parse_attendance("").unwrap().len(), 0);
}

#[test]
fn gradebook_ignores_self_closing_course() {
    // The gradebook shape reads explicit start tags only.
    let courses = parse_gradebook("<Course Period=\"1\"/>").unwrap();
    assert_eq!(courses.len(), 0);
}

#[test]
fn student_info_last_write_wins() {
    let xml = "<r><Grade>8</Grade><Grade>9</Grade></r>";
    let info = parse_student_info(xml).unwrap();
    assert_eq!(info.grade, "9");
}

#[test]
fn extractor_works_on_hand_built_events() {
    let events = vec![
        XmlEvent::Open { name: "root".to_string(), attrs: Vec::new() },
        XmlEvent::SelfClose {
            name: "MessageListing".to_string(),
            attrs: vec![
                Attr { name: "ID".to_string(), value: "9".to_string() },
                Attr { name: "Read".to_string(), value: "true".to_string() },
            ],
        },
        XmlEvent::Close { name: "root".to_string() },
    ];
    let msgs = extract_messages(&events).unwrap();
    assert_eq!(msgs.len(), 1);
    assert_eq!(msgs[0].id, "9");
    assert!(msgs[0].read);
}

#[test]
fn extractor_fails_on_fault_event() {
    let events = vec![XmlEvent::Fault { message: "bad".to_string() }];
    match extract_messages(&events) {
        Err(Error::XmlParse(m)) => assert_eq!(m, "bad"),
        _ => panic!("expected XmlParse"),
    }
}

#[test]
fn duplicate_attribute_last_wins() {
    let msgs = parse_messages("<MessageListing ID=\"1\" ID=\"2\"/>");
    // quick_xml reports duplicate attributes as malformed and skips them;
    // whatever it yields, the extractor must not fail the whole parse.
    match msgs {
        Ok(list) => assert_eq!(list.len(), 1),
        Err(_) => panic!("duplicate attribute must not fail the parse"),
    }
}
