use studenvue::soap::SoapClient;

#[test]
fn escape_ampersand() {
    assert_eq!(studenvue::escape::escape_xml("&"), "&amp;");
}

#[test]
fn escape_angle_brackets() {
    assert_eq!(studenvue::escape::escape_xml("<>"), "&lt;&gt;");
}

#[test]
fn escape_quotes() {
    assert_eq!(studenvue::escape::escape_xml("\"'"), "&quot;&apos;");
}

#[test]
fn escape_never_double_escapes() {
    assert_eq!(studenvue::escape::escape_xml("&lt;"), "&amp;lt;");
}

#[test]
fn escape_identity_on_clean_text() {
    assert_eq!(studenvue::escape::escape_xml("hello world 123"), "hello world 123");
}

#[test]
fn escape_idempotent_on_clean_text() {
    let once = studenvue::escape::escape_xml("plain text");
    let twice = studenvue::escape::escape_xml(&once);
    assert_eq!(once, twice);
}

#[test]
fn escape_mixed() {
    assert_eq!(studenvue::escape::escape_xml("a&b<c>d"), "a&amp;b&lt;c&gt;d");
}

#[test]
fn build_params_empty_gives_marker() {
    let params: Vec<(String, String)> = Vec::new();
    assert_eq!(SoapClient::build_params(&params), "&lt;Parms/&gt;");
}

#[test]
fn build_params_one_entry() {
    let params = vec![("Key".to_string(), "Val".to_string())];
    assert_eq!(
        SoapClient::build_params(&params),
        "&lt;Parms&gt;&lt;Key&gt;Val&lt;/Key&gt;&lt;/Parms&gt;"
    );
}

#[test]
fn build_params_two_entries_in_order() {
    let params = vec![
        ("childIntID".to_string(), "0".to_string()),
        ("RequestDate".to_string(), "10/30/2025".to_string()),
    ];
    assert_eq!(
        SoapClient::build_params(&params),
        "&lt;Parms&gt;&lt;childIntID&gt;0&lt;/childIntID&gt;&lt;RequestDate&gt;10/30/2025&lt;/RequestDate&gt;&lt;/Parms&gt;"
    );
}

#[test]
fn build_params_value_not_further_escaped() {
    // Values are spliced in as they stand: a pre-escaped value keeps its
    // entities, an unescaped special character passes through raw.
    let params = vec![("K".to_string(), "a&amp;b".to_string())];
    assert_eq!(
        SoapClient::build_params(&params),
        "&lt;Parms&gt;&lt;K&gt;a&amp;b&lt;/K&gt;&lt;/Parms&gt;"
    );
}

#[test]
fn param_block_unescapes_to_inner_document() {
    let params = vec![
        ("Key".to_string(), "5E4B".to_string()),
        ("MatchToDistrictZipCode".to_string(), "94102".to_string()),
    ];
    let block = SoapClient::build_params(&params);
    // One round of unescaping (entities first introduced by the block).
    let unescaped = block
        .replace("&lt;", "<")
        .replace("&gt;", ">")
        .replace("&amp;", "&");
    assert_eq!(
        unescaped,
        "<Parms><Key>5E4B</Key><MatchToDistrictZipCode>94102</MatchToDistrictZipCode></Parms>"
    );
}

#[test]
fn empty_marker_unescapes_to_empty_element() {
    let params: Vec<(String, String)> = Vec::new();
    let block = SoapClient::build_params(&params);
    let unescaped = block
        .replace("&lt;", "<")
        .replace("&gt;", ">")
        .replace("&amp;", "&");
    assert_eq!(unescaped, "<Parms/>");
}

#[test]
fn create_request_single_template_exact() {
    let r = SoapClient::create_request("user", "pass", "PXPWebServices", "GetPXPMessages", "&lt;Parms/&gt;", false);
    let expected = "<?xml version=\"1.0\" encoding=\"utf-8\"?>\n\
<soap:Envelope xmlns:xsi=\"http://www.w3.org/2001/XMLSchema-instance\" xmlns:xsd=\"http://www.w3.org/2001/XMLSchema\" xmlns:soap=\"http://schemas.xmlsoap.org/soap/envelope/\">\n\
<soap:Body>\n\
<ProcessWebServiceRequest xmlns=\"http://edupoint.com/webservices/\">\n\
<userID>user</userID>\n\
<password>pass</password>\n\
<skipLoginLog>1</skipLoginLog>\n\
<parent>0</parent>\n\
<webServiceHandleName>PXPWebServices</webServiceHandleName>\n\
<methodName>GetPXPMessages</methodName>\n\
<paramStr>&lt;Parms/&gt;</paramStr>\n\
</ProcessWebServiceRequest>\n\
</soap:Body>\n\
</soap:Envelope>";
    assert_eq!(r, expected);
}

#[test]
fn create_request_multi_template_exact() {
    let r = SoapClient::create_request("user", "pass", "PXPWebServices", "SynergyMailGetAttachment", "&lt;Parms/&gt;", true);
    let expected = "<?xml version=\"1.0\" encoding=\"utf-8\"?>\n\
<soap:Envelope xmlns:xsi=\"http://www.w3.org/2001/XMLSchema-instance\" xmlns:xsd=\"http://www.w3.org/2001/XMLSchema\" xmlns:soap=\"http://schemas.xmlsoap.org/soap/envelope/\">\n\
<soap:Body>\n\
<ProcessWebServiceRequestMultiWeb xmlns=\"http://edupoint.com/webservices/\">\n\
<userID>user</userID>\n\
<password>pass</password>\n\
<skipLoginLog>1</skipLoginLog>\n\
<parent>0</parent>\n\
<webDBName></webDBName>\n\
<webServiceHandleName>PXPWebServices</webServiceHandleName>\n\
<methodName>SynergyMailGetAttachment</methodName>\n\
<paramStr>&lt;Parms/&gt;</paramStr>\n\
</ProcessWebServiceRequestMultiWeb>\n\
</soap:Body>\n\
</soap:Envelope>";
    assert_eq!(r, expected);
}

#[test]
fn create_request_single_omits_web_db_name() {
    let r = SoapClient::create_request("u", "p", "H", "M", "&lt;Parms/&gt;", false);
    assert!(r.contains("ProcessWebServiceRequest"));
    assert!(!r.contains("webDBName"));
}

#[test]
fn create_request_multi_has_one_empty_web_db_name() {
    let r = SoapClient::create_request("u", "p", "H", "M", "&lt;Parms/&gt;", true);
    assert!(r.contains("ProcessWebServiceRequestMultiWeb"));
    let occurrences: Vec<_> = r.match_indices("<webDBName></webDBName>").collect();
    assert_eq!(occurrences.len(), 1);
}

#[test]
fn create_request_escapes_credentials() {
    let r = SoapClient::create_request("a&b", "p<q", "H", "M", "&lt;Parms/&gt;", false);
    assert!(r.contains("<userID>a&amp;b</userID>"));
    assert!(r.contains("<password>p&lt;q</password>"));
}

#[test]
fn create_request_does_not_reescape_param_block() {
    let r = SoapClient::create_request("u", "p", "H", "M", "&lt;Parms&gt;&lt;K&gt;v&lt;/K&gt;&lt;/Parms&gt;", false);
    assert!(r.contains("<paramStr>&lt;Parms&gt;&lt;K&gt;v&lt;/K&gt;&lt;/Parms&gt;</paramStr>"));
}

#[test]
fn parse_response_round_trip() {
    let r = SoapClient::parse_response(
        "<ProcessWebServiceRequestResult>HELLO</ProcessWebServiceRequestResult>",
    )
    .unwrap();
    assert_eq!(r, "HELLO");
}

#[test]
fn parse_response_full_envelope() {
    let text = "<?xml version=\"1.0\" encoding=\"utf-8\"?>\
<soap:Envelope xmlns:soap=\"http://schemas.xmlsoap.org/soap/envelope/\">\
<soap:Body><ProcessWebServiceRequestResponse xmlns=\"http://edupoint.com/webservices/\">\
<ProcessWebServiceRequestResult>&lt;District/&gt;</ProcessWebServiceRequestResult>\
</ProcessWebServiceRequestResponse></soap:Body></soap:Envelope>";
    let r = SoapClient::parse_response(text).unwrap();
    assert_eq!(r, "<District/>");
}

#[test]
fn parse_response_multi_web_result() {
    let r = SoapClient::parse_response(
        "<ns:ProcessWebServiceRequestMultiWebResult>OK</ns:ProcessWebServiceRequestMultiWebResult>",
    )
    .unwrap();
    assert_eq!(r, "OK");
}

#[test]
fn parse_response_without_result_element_is_empty() {
    let r = SoapClient::parse_response("<Other>text</Other>").unwrap();
    assert_eq!(r, "");
}

#[test]
fn parse_response_malformed_fails() {
    let r = SoapClient::parse_response("<Foo");
    assert!(matches!(r, Err(studenvue::error::Error::XmlParse(_))));
}

#[test]
fn escape_empty_string() {
    assert_eq!(studenvue::escape::escape_xml(""), "");
}

#[test]
fn parse_response_concatenates_result_elements() {
    let text = "<r><ProcessWebServiceRequestResult>AB</ProcessWebServiceRequestResult>\
<ProcessWebServiceRequestResult>CD</ProcessWebServiceRequestResult></r>";
    assert_eq!(SoapClient::parse_response(text).unwrap(), "ABCD");
}

#[test]
fn parse_response_matches_suffix_of_tag_name() {
    let r = SoapClient::parse_response(
        "<abcProcessWebServiceRequestResult>X</abcProcessWebServiceRequestResult>",
    )
    .unwrap();
    assert_eq!(r, "X");
}

#[test]
fn mark_read_params_exact() {
    assert_eq!(
        SoapClient::mark_read_params("77", "StudentMessage"),
        "&lt;Parms&gt;&lt;MessageListing ID=\"77\" Type=\"StudentMessage\" MarkAsRead=\"true\" /&gt;&lt;/Parms&gt;"
    );
}

#[test]
fn error_message_text() {
    let err = studenvue::error::Error::Authentication("status 401".to_string());
    assert_eq!(err.message(), "status 401");
}
