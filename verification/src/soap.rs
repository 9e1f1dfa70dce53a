//! The SOAP envelope builder and response unwrapper.
//!
//! A request is one XML document whose `paramStr` leaf carries a second,
//! entity-escaped XML document: the parameter block. The builder escapes the
//! four credential strings itself but splices the parameter block in as it
//! stands, since that block arrives pre-escaped from [`SoapClient::build_params`].
//! The unwrapper recovers the entity-unescaped text content of the response's
//! result element.

use vstd::prelude::*;
use vstd::string::StringExecFns;
use crate::error::Error;
use crate::escape::{
    escape_text, escape_xml, lemma_escape_identity, lemma_escape_single, lemma_escape_text_append,
    lemma_unescape_escape, no_specials, unescape_once,
};
use crate::strutil::{contains_text, ends_with, str_ends_with};
use crate::xml::{tokenize, xml_events, EventView, XmlEvent};

verus! {

/// Builder of request envelopes and reader of response envelopes.
pub struct SoapClient;

/// The local name of the remote operation, by template.
pub open spec fn operation_name(multi_web: bool) -> Seq<char> {
    if multi_web {
        "ProcessWebServiceRequestMultiWeb"@
    } else {
        "ProcessWebServiceRequest"@
    }
}

/// One body element of the envelope, `<name>value</name>` and a line break.
pub open spec fn element_text(name: Seq<char>, value: Seq<char>) -> Seq<char> {
    seq!['<'] + name + seq!['>'] + value + seq!['<', '/'] + name + seq!['>', '\n']
}

/// The body elements, serialized in order.
pub open spec fn elements_text(es: Seq<(Seq<char>, Seq<char>)>) -> Seq<char>
    decreases es.len(),
{
    if es.len() == 0 {
        Seq::empty()
    } else {
        elements_text(es.drop_last()) + element_text(es.last().0, es.last().1)
    }
}

/// One more element serializes at the end.
pub proof fn lemma_elements_text_snoc(es: Seq<(Seq<char>, Seq<char>)>, e: (Seq<char>, Seq<char>))
    ensures
        elements_text(es.push(e)) == elements_text(es) + element_text(e.0, e.1),
{
    assert(es.push(e).drop_last() =~= es);
    assert(es.push(e).last() == e);
}

/// The name/value pairs of the envelope body, in template order. The
/// multi-operation template carries one extra, empty `webDBName` element; the
/// single-operation template carries none.
pub open spec fn envelope_elements(
    u: Seq<char>,
    p: Seq<char>,
    h: Seq<char>,
    m: Seq<char>,
    param: Seq<char>,
    multi_web: bool,
) -> Seq<(Seq<char>, Seq<char>)> {
    let head = seq![
        ("userID"@, u),
        ("password"@, p),
        ("skipLoginLog"@, "1"@),
        ("parent"@, "0"@),
    ];
    let tail = seq![("webServiceHandleName"@, h), ("methodName"@, m), ("paramStr"@, param)];
    if multi_web {
        head + seq![("webDBName"@, Seq::<char>::empty())] + tail
    } else {
        head + tail
    }
}

/// The whole envelope for already-escaped credential strings and a
/// pre-escaped parameter block.
pub open spec fn envelope_text(
    u: Seq<char>,
    p: Seq<char>,
    h: Seq<char>,
    m: Seq<char>,
    param: Seq<char>,
    multi_web: bool,
) -> Seq<char> {
    "<?xml version=\"1.0\" encoding=\"utf-8\"?>\n<soap:Envelope xmlns:xsi=\"http://www.w3.org/2001/XMLSchema-instance\" xmlns:xsd=\"http://www.w3.org/2001/XMLSchema\" xmlns:soap=\"http://schemas.xmlsoap.org/soap/envelope/\">\n<soap:Body>\n<"@
        + operation_name(multi_web) + " xmlns=\"http://edupoint.com/webservices/\">\n"@
        + elements_text(envelope_elements(u, p, h, m, param, multi_web)) + "</"@
        + operation_name(multi_web) + ">\n</soap:Body>\n</soap:Envelope>"@
}

/// The entity-escaped element for one parameter: the value is spliced in as
/// it stands, not escaped again.
pub open spec fn param_entry(k: Seq<char>, v: Seq<char>) -> Seq<char> {
    "&lt;"@ + k + "&gt;"@ + v + "&lt;/"@ + k + "&gt;"@
}

/// The entity-escaped elements of all parameters, in order.
pub open spec fn param_entries(ps: Seq<(Seq<char>, Seq<char>)>) -> Seq<char>
    decreases ps.len(),
{
    if ps.len() == 0 {
        Seq::empty()
    } else {
        param_entries(ps.drop_last()) + param_entry(ps.last().0, ps.last().1)
    }
}

/// One more parameter serializes at the end.
pub proof fn lemma_param_entries_snoc(ps: Seq<(Seq<char>, Seq<char>)>, e: (Seq<char>, Seq<char>))
    ensures
        param_entries(ps.push(e)) == param_entries(ps) + param_entry(e.0, e.1),
{
    assert(ps.push(e).drop_last() =~= ps);
    assert(ps.push(e).last() == e);
}

/// The whole entity-escaped parameter block: the canonical empty-parameters
/// marker for no parameters, an escaped `Parms` wrapper otherwise.
pub open spec fn param_block(ps: Seq<(Seq<char>, Seq<char>)>) -> Seq<char> {
    if ps.len() == 0 {
        "&lt;Parms/&gt;"@
    } else {
        "&lt;Parms&gt;"@ + param_entries(ps) + "&lt;/Parms&gt;"@
    }
}

/// Append one escaped parameter element.
fn append_param_entry(out: &mut String, k: &str, v: &str)
    ensures
        final(out)@ == old(out)@ + param_entry(k@, v@),
{
    out.append("&lt;");
    out.append(k);
    out.append("&gt;");
    out.append(v);
    out.append("&lt;/");
    out.append(k);
    out.append("&gt;");
    proof {
        assert(out@ =~= old(out)@ + param_entry(k@, v@));
    }
}

/// Append `<name>value</name>` and a line break.
fn append_element(out: &mut String, name: &str, value: &str)
    ensures
        final(out)@ == old(out)@ + element_text(name@, value@),
{
    out.append("<");
    out.append(name);
    out.append(">");
    out.append(value);
    out.append("</");
    out.append(name);
    out.append(">\n");
    proof {
        reveal_strlit("<");
        reveal_strlit(">");
        reveal_strlit("</");
        reveal_strlit(">\n");
        assert(out@ =~= old(out)@ + element_text(name@, value@));
    }
}

impl SoapClient {
    /// Build the wire-format SOAP body for one remote operation.
    ///
    /// The four credential strings are entity-escaped one by one; the
    /// parameter block is spliced in unchanged, it is escaped already. The
    /// template is selected by `multi_web`. Pure string assembly: no failure.
    pub fn create_request(
        user_id: &str,
        password: &str,
        service_handle: &str,
        method_name: &str,
        param_str: &str,
        multi_web: bool,
    ) -> (r: String)
        ensures
            r@ == envelope_text(
                escape_text(user_id@),
                escape_text(password@),
                escape_text(service_handle@),
                escape_text(method_name@),
                param_str@,
                multi_web,
            ),
    {
        let user_id = escape_xml(user_id);
        let password = escape_xml(password);
        let service_handle = escape_xml(service_handle);
        let method_name = escape_xml(method_name);

        let mut out = String::new();
        out.append(
            "<?xml version=\"1.0\" encoding=\"utf-8\"?>\n<soap:Envelope xmlns:xsi=\"http://www.w3.org/2001/XMLSchema-instance\" xmlns:xsd=\"http://www.w3.org/2001/XMLSchema\" xmlns:soap=\"http://schemas.xmlsoap.org/soap/envelope/\">\n<soap:Body>\n<",
        );
        if multi_web {
            out.append("ProcessWebServiceRequestMultiWeb");
        } else {
            out.append("ProcessWebServiceRequest");
        }
        out.append(" xmlns=\"http://edupoint.com/webservices/\">\n");
        let ghost body_start = out@;
        let ghost mut es: Seq<(Seq<char>, Seq<char>)> = Seq::empty();

        proof {
            assert(elements_text(es) == Seq::<char>::empty());
            assert(body_start + elements_text(es) =~= body_start);
        }
        append_element(&mut out, "userID", user_id.as_str());
        proof {
            lemma_elements_text_snoc(es, ("userID"@, user_id@));
            vstd::seq_lib::lemma_concat_associative(body_start, elements_text(es), element_text("userID"@, user_id@));
            es = es.push(("userID"@, user_id@));
            assert(out@ == body_start + elements_text(es));
        }
        append_element(&mut out, "password", password.as_str());
        proof {
            lemma_elements_text_snoc(es, ("password"@, password@));
            vstd::seq_lib::lemma_concat_associative(body_start, elements_text(es), element_text("password"@, password@));
            es = es.push(("password"@, password@));
            assert(out@ == body_start + elements_text(es));
        }
        append_element(&mut out, "skipLoginLog", "1");
        proof {
            lemma_elements_text_snoc(es, ("skipLoginLog"@, "1"@));
            vstd::seq_lib::lemma_concat_associative(body_start, elements_text(es), element_text("skipLoginLog"@, "1"@));
            es = es.push(("skipLoginLog"@, "1"@));
            assert(out@ == body_start + elements_text(es));
        }
        append_element(&mut out, "parent", "0");
        proof {
            lemma_elements_text_snoc(es, ("parent"@, "0"@));
            vstd::seq_lib::lemma_concat_associative(body_start, elements_text(es), element_text("parent"@, "0"@));
            es = es.push(("parent"@, "0"@));
            assert(out@ == body_start + elements_text(es));
        }
        if multi_web {
            append_element(&mut out, "webDBName", "");
            proof {
                reveal_strlit("");
                assert(""@ =~= Seq::<char>::empty());
                lemma_elements_text_snoc(es, ("webDBName"@, Seq::<char>::empty()));
                vstd::seq_lib::lemma_concat_associative(
                    body_start,
                    elements_text(es),
                    element_text("webDBName"@, Seq::<char>::empty()),
                );
                es = es.push(("webDBName"@, Seq::<char>::empty()));
                assert(out@ == body_start + elements_text(es));
            }
        }
        append_element(&mut out, "webServiceHandleName", service_handle.as_str());
        proof {
            lemma_elements_text_snoc(es, ("webServiceHandleName"@, service_handle@));
            vstd::seq_lib::lemma_concat_associative(body_start, elements_text(es), element_text("webServiceHandleName"@, service_handle@));
            es = es.push(("webServiceHandleName"@, service_handle@));
            assert(out@ == body_start + elements_text(es));
        }
        append_element(&mut out, "methodName", method_name.as_str());
        proof {
            lemma_elements_text_snoc(es, ("methodName"@, method_name@));
            vstd::seq_lib::lemma_concat_associative(body_start, elements_text(es), element_text("methodName"@, method_name@));
            es = es.push(("methodName"@, method_name@));
            assert(out@ == body_start + elements_text(es));
        }
        append_element(&mut out, "paramStr", param_str);
        proof {
            lemma_elements_text_snoc(es, ("paramStr"@, param_str@));
            vstd::seq_lib::lemma_concat_associative(body_start, elements_text(es), element_text("paramStr"@, param_str@));
            es = es.push(("paramStr"@, param_str@));
            assert(out@ == body_start + elements_text(es));
        }
        out.append("</");
        if multi_web {
            out.append("ProcessWebServiceRequestMultiWeb");
        } else {
            out.append("ProcessWebServiceRequest");
        }
        out.append(">\n</soap:Body>\n</soap:Envelope>");
        proof {
            assert(es =~= envelope_elements(
                user_id@,
                password@,
                service_handle@,
                method_name@,
                param_str@,
                multi_web,
            ));
            assert(out@ =~= envelope_text(
                user_id@,
                password@,
                service_handle@,
                method_name@,
                param_str@,
                multi_web,
            ));
        }
        out
    }

    /// Serialize a parameter list into the entity-escaped parameter block.
    ///
    /// An empty list gives the canonical empty-parameters marker; otherwise
    /// an escaped `Parms` wrapper holds one escaped element per parameter,
    /// in list order, each value spliced in as it stands.
    pub fn build_params(params: &Vec<(String, String)>) -> (r: String)
        ensures
            r@ == param_block(params.deep_view()),
    {
        let ghost ps = params.deep_view();
        if params.len() == 0 {
            return "&lt;Parms/&gt;".to_owned();
        }
        let mut out = "&lt;Parms&gt;".to_owned();
        let ghost base = out@;
        let mut i: usize = 0;
        proof {
            assert(param_entries(ps.take(0)) == Seq::<char>::empty());
            assert(base + param_entries(ps.take(0)) =~= base);
        }
        while i < params.len()
            invariant
                0 <= i <= params@.len(),
                ps == params.deep_view(),
                ps.len() == params@.len(),
                base == "&lt;Parms&gt;"@,
                out@ == base + param_entries(ps.take(i as int)),
            decreases params@.len() - i,
        {
            proof {
                assert(ps[i as int] == (params@[i as int].0@, params@[i as int].1@));
                assert(ps.take(i as int).push(ps[i as int]) =~= ps.take(i as int + 1));
                lemma_param_entries_snoc(ps.take(i as int), ps[i as int]);
                vstd::seq_lib::lemma_concat_associative(
                    base,
                    param_entries(ps.take(i as int)),
                    param_entry(ps[i as int].0, ps[i as int].1),
                );
            }
            append_param_entry(&mut out, params[i].0.as_str(), params[i].1.as_str());
            i = i + 1;
        }
        proof {
            assert(ps.take(ps.len() as int) =~= ps);
        }
        out.append("&lt;/Parms&gt;");
        out
    }
}

/// The escaped parameter block that marks one message read: a single
/// `MessageListing` element carrying the message's identifier and type.
pub open spec fn mark_read_block(id: Seq<char>, ty: Seq<char>) -> Seq<char> {
    "&lt;Parms&gt;&lt;MessageListing ID=\""@ + id + "\" Type=\""@ + ty
        + "\" MarkAsRead=\"true\" /&gt;&lt;/Parms&gt;"@
}

impl SoapClient {
    /// Build the parameter block that marks one message read. The message
    /// identifier and type are spliced in as they stand.
    pub fn mark_read_params(message_id: &str, message_type: &str) -> (r: String)
        ensures
            r@ == mark_read_block(message_id@, message_type@),
    {
        let mut out = String::new();
        out.append("&lt;Parms&gt;&lt;MessageListing ID=\"");
        out.append(message_id);
        out.append("\" Type=\"");
        out.append(message_type);
        out.append("\" MarkAsRead=\"true\" /&gt;&lt;/Parms&gt;");
        proof {
            assert(out@ =~= mark_read_block(message_id@, message_type@));
        }
        out
    }
}

/// Whether a tag name marks the result element of either template,
/// whatever namespace prefix it carries.
pub open spec fn is_result_tag(name: Seq<char>) -> bool {
    ends_with(name, "ProcessWebServiceRequestResult"@) || ends_with(
        name,
        "ProcessWebServiceRequestMultiWebResult"@,
    )
}

/// The running state of the response unwrapper: whether the scan stands
/// inside a result element, the text collected so far, and the first parse
/// fault, if any.
pub struct ResponseScan {
    pub in_result: bool,
    pub content: Seq<char>,
    pub fault: Option<Seq<char>>,
}

/// One step of the response unwrapper: the result element's start and end
/// tags toggle collection, and text inside it accumulates entity-decoded.
pub open spec fn response_step(st: ResponseScan, ev: EventView) -> ResponseScan {
    if st.fault is Some {
        st
    } else {
        match ev {
            EventView::Open { name, .. } => if is_result_tag(name) {
                ResponseScan { in_result: true, content: st.content, fault: st.fault }
            } else {
                st
            },
            EventView::Close { name } => if is_result_tag(name) {
                ResponseScan { in_result: false, content: st.content, fault: st.fault }
            } else {
                st
            },
            EventView::Text { text } => if st.in_result {
                match text {
                    Ok(t) => ResponseScan {
                        in_result: st.in_result,
                        content: st.content + t,
                        fault: st.fault,
                    },
                    Err(m) => ResponseScan {
                        in_result: st.in_result,
                        content: st.content,
                        fault: Some(m),
                    },
                }
            } else {
                st
            },
            EventView::Fault { message } => ResponseScan {
                in_result: st.in_result,
                content: st.content,
                fault: Some(message),
            },
            _ => st,
        }
    }
}

/// The unwrapper state after a whole event sequence.
pub open spec fn response_scan(evs: Seq<EventView>) -> ResponseScan
    decreases evs.len(),
{
    if evs.len() == 0 {
        ResponseScan { in_result: false, content: Seq::empty(), fault: None }
    } else {
        response_step(response_scan(evs.drop_last()), evs.last())
    }
}

/// A recorded fault never goes away: the scan of the whole sequence keeps
/// the fault its prefix recorded.
pub proof fn lemma_response_fault_persists(evs: Seq<EventView>, i: int)
    requires
        0 <= i <= evs.len(),
        response_scan(evs.take(i)).fault is Some,
    ensures
        response_scan(evs).fault == response_scan(evs.take(i)).fault,
    decreases evs.len() - i,
{
    if i == evs.len() {
        assert(evs.take(i) =~= evs);
    } else {
        assert(evs.take(i + 1).drop_last() =~= evs.take(i));
        assert(evs.take(i + 1).last() == evs[i]);
        assert(response_scan(evs.take(i + 1)) == response_step(
            response_scan(evs.take(i)),
            evs[i],
        ));
        lemma_response_fault_persists(evs, i + 1);
    }
}

impl SoapClient {
    /// Unwrap a SOAP response: the concatenated, entity-unescaped text
    /// content of every element whose local name ends in the result-element
    /// name of either template.
    ///
    /// A response without such an element gives the empty string, not an
    /// error; a malformed response, or one whose result text holds an
    /// invalid entity, fails with the tokenizer's error text.
    pub fn parse_response(response_text: &str) -> (r: Result<String, Error>)
        ensures
            match r {
                Ok(s) => response_scan(xml_events(response_text@)).fault is None && s@
                    == response_scan(xml_events(response_text@)).content,
                Err(e) => e matches Error::XmlParse(m) && response_scan(
                    xml_events(response_text@),
                ).fault == Some(m@),
            },
    {
        let events = tokenize(response_text);
        let ghost evs = events.deep_view();
        let mut out = String::new();
        let mut in_result: bool = false;
        let mut i: usize = 0;
        while i < events.len()
            invariant
                0 <= i <= events@.len(),
                evs == events.deep_view(),
                evs == xml_events(response_text@),
                evs.len() == events@.len(),
                response_scan(evs.take(i as int)).fault is None,
                in_result == response_scan(evs.take(i as int)).in_result,
                out@ == response_scan(evs.take(i as int)).content,
            decreases events@.len() - i,
        {
            let ghost st = response_scan(evs.take(i as int));
            proof {
                assert(evs[i as int] == events@[i as int]@);
                assert(evs.take(i as int + 1).drop_last() =~= evs.take(i as int));
                assert(evs.take(i as int + 1).last() == evs[i as int]);
                assert(response_scan(evs.take(i as int + 1)) == response_step(st, evs[i as int]));
            }
            match &events[i] {
                XmlEvent::Open { name, .. } => {
                    if str_ends_with(name.as_str(), "ProcessWebServiceRequestResult")
                        || str_ends_with(name.as_str(), "ProcessWebServiceRequestMultiWebResult") {
                        in_result = true;
                    }
                }
                XmlEvent::Close { name } => {
                    if str_ends_with(name.as_str(), "ProcessWebServiceRequestResult")
                        || str_ends_with(name.as_str(), "ProcessWebServiceRequestMultiWebResult") {
                        in_result = false;
                    }
                }
                XmlEvent::Text { text } => {
                    if in_result {
                        match text {
                            Ok(t) => {
                                out.append(t.as_str());
                            }
                            Err(m) => {
                                proof {
                                    lemma_response_fault_persists(evs, i as int + 1);
                                }
                                return Err(Error::XmlParse(m.clone()));
                            }
                        }
                    }
                }
                XmlEvent::Fault { message } => {
                    proof {
                        lemma_response_fault_persists(evs, i as int + 1);
                    }
                    return Err(Error::XmlParse(message.clone()));
                }
                _ => {}
            }
            i = i + 1;
        }
        proof {
            assert(evs.take(evs.len() as int) =~= evs);
        }
        Ok(out)
    }
}

/// The raw (unescaped) element for one parameter.
pub open spec fn raw_param_entry(k: Seq<char>, v: Seq<char>) -> Seq<char> {
    seq!['<'] + k + seq!['>'] + v + seq!['<', '/'] + k + seq!['>']
}

/// The raw elements of all parameters, in order.
pub open spec fn raw_param_entries(ps: Seq<(Seq<char>, Seq<char>)>) -> Seq<char>
    decreases ps.len(),
{
    if ps.len() == 0 {
        Seq::empty()
    } else {
        raw_param_entries(ps.drop_last()) + raw_param_entry(ps.last().0, ps.last().1)
    }
}

/// The raw inner parameter document that the escaped block stands for: a
/// `Parms` wrapper with exactly one element per parameter, in order, whose
/// text content is the parameter's value unchanged.
pub open spec fn raw_params_doc(ps: Seq<(Seq<char>, Seq<char>)>) -> Seq<char> {
    if ps.len() == 0 {
        "<Parms/>"@
    } else {
        "<Parms>"@ + raw_param_entries(ps) + "</Parms>"@
    }
}

/// Escaping an angle-bracket wrapper around text with no special characters.
proof fn lemma_escape_wrapped(mid: Seq<char>)
    requires
        no_specials(mid),
    ensures
        escape_text(seq!['<'] + mid + seq!['>']) == "&lt;"@ + mid + "&gt;"@,
{
    lemma_escape_text_append(seq!['<'] + mid, seq!['>']);
    lemma_escape_text_append(seq!['<'], mid);
    lemma_escape_single('<');
    lemma_escape_single('>');
    lemma_escape_identity(mid);
}

/// Escaping one raw parameter element gives its escaped element.
proof fn lemma_escape_raw_entry(k: Seq<char>, v: Seq<char>)
    requires
        no_specials(k),
        no_specials(v),
    ensures
        escape_text(raw_param_entry(k, v)) == param_entry(k, v),
{
    reveal_strlit("&lt;");
    reveal_strlit("&gt;");
    reveal_strlit("&lt;/");
    let a5 = seq!['<', '/'];
    lemma_escape_text_append(seq!['<'] + k + seq!['>'] + v + a5 + k, seq!['>']);
    lemma_escape_text_append(seq!['<'] + k + seq!['>'] + v + a5, k);
    lemma_escape_text_append(seq!['<'] + k + seq!['>'] + v, a5);
    lemma_escape_text_append(seq!['<'] + k + seq!['>'], v);
    lemma_escape_text_append(seq!['<'] + k, seq!['>']);
    lemma_escape_text_append(seq!['<'], k);
    lemma_escape_single('<');
    lemma_escape_single('>');
    lemma_escape_identity(k);
    lemma_escape_identity(v);
    assert(a5 =~= seq!['<'].push('/'));
    crate::escape::lemma_escape_text_snoc(seq!['<'], '/');
    assert(escape_text(a5) == "&lt;"@ + seq!['/']);
    assert("&lt;/"@ =~= "&lt;"@ + seq!['/']);
}

/// Escaping all raw parameter elements gives the escaped elements.
proof fn lemma_escape_raw_entries(ps: Seq<(Seq<char>, Seq<char>)>)
    requires
        forall|i: int| 0 <= i < ps.len() ==> no_specials((#[trigger] ps[i]).0) && no_specials(
            ps[i].1,
        ),
    ensures
        escape_text(raw_param_entries(ps)) == param_entries(ps),
    decreases ps.len(),
{
    if ps.len() == 0 {
        assert(escape_text(raw_param_entries(ps)) =~= Seq::<char>::empty());
        assert(param_entries(ps) =~= Seq::<char>::empty());
    } else {
        let e = ps.last();
        lemma_escape_raw_entries(ps.drop_last());
        lemma_escape_text_append(raw_param_entries(ps.drop_last()), raw_param_entry(e.0, e.1));
        assert(ps[ps.len() - 1] == e);
        lemma_escape_raw_entry(e.0, e.1);
    }
}

/// The parameter block is exactly the escape of the raw inner document.
pub proof fn lemma_param_block_is_escaped_doc(ps: Seq<(Seq<char>, Seq<char>)>)
    requires
        forall|i: int| 0 <= i < ps.len() ==> no_specials((#[trigger] ps[i]).0) && no_specials(
            ps[i].1,
        ),
    ensures
        param_block(ps) == escape_text(raw_params_doc(ps)),
{
    reveal_strlit("<Parms>");
    reveal_strlit("</Parms>");
    reveal_strlit("<Parms/>");
    reveal_strlit("Parms");
    reveal_strlit("/Parms");
    reveal_strlit("Parms/");
    reveal_strlit("&lt;Parms&gt;");
    reveal_strlit("&lt;/Parms&gt;");
    reveal_strlit("&lt;Parms/&gt;");
    reveal_strlit("&lt;");
    reveal_strlit("&gt;");
    if ps.len() == 0 {
        assert(no_specials("Parms/"@));
        assert("<Parms/>"@ =~= seq!['<'] + "Parms/"@ + seq!['>']);
        lemma_escape_wrapped("Parms/"@);
        assert("&lt;Parms/&gt;"@ =~= "&lt;"@ + "Parms/"@ + "&gt;"@);
    } else {
        assert(no_specials("Parms"@));
        assert(no_specials("/Parms"@));
        assert("<Parms>"@ =~= seq!['<'] + "Parms"@ + seq!['>']);
        assert("</Parms>"@ =~= seq!['<'] + "/Parms"@ + seq!['>']);
        lemma_escape_wrapped("Parms"@);
        lemma_escape_wrapped("/Parms"@);
        assert("&lt;Parms&gt;"@ =~= "&lt;"@ + "Parms"@ + "&gt;"@);
        assert("&lt;/Parms&gt;"@ =~= "&lt;"@ + "/Parms"@ + "&gt;"@);
        lemma_escape_text_append("<Parms>"@ + raw_param_entries(ps), "</Parms>"@);
        lemma_escape_text_append("<Parms>"@, raw_param_entries(ps));
        lemma_escape_raw_entries(ps);
    }
}

/// Unescaping the parameter block once recovers the raw inner document: a
/// `Parms` wrapper holding exactly one element per parameter, in order, with
/// the parameter's value as its text content unchanged. Stated for keys and
/// values free of special characters — a value that holds its own markup or
/// entities leaves the block outside this round trip.
pub proof fn lemma_param_block_unescapes(ps: Seq<(Seq<char>, Seq<char>)>)
    requires
        forall|i: int| 0 <= i < ps.len() ==> no_specials((#[trigger] ps[i]).0) && no_specials(
            ps[i].1,
        ),
    ensures
        unescape_once(param_block(ps)) == raw_params_doc(ps),
{
    lemma_param_block_is_escaped_doc(ps);
    lemma_unescape_escape(raw_params_doc(ps));
}

/// The single-operation envelope's body holds no `webDBName` element; the
/// multi-operation envelope's body holds exactly one, and it is empty. Each
/// envelope contains its operation's name.
pub proof fn lemma_envelope_operation(
    u: Seq<char>,
    p: Seq<char>,
    h: Seq<char>,
    m: Seq<char>,
    param: Seq<char>,
)
    ensures
        envelope_elements(u, p, h, m, param, false).len() == 7,
        forall|i: int| 0 <= i < 7 ==> (#[trigger] envelope_elements(u, p, h, m, param, false)[i]).0
            != "webDBName"@,
        envelope_elements(u, p, h, m, param, true).len() == 8,
        envelope_elements(u, p, h, m, param, true)[4] == ("webDBName"@, Seq::<char>::empty()),
        forall|i: int|
            0 <= i < 8 && i != 4 ==> (#[trigger] envelope_elements(u, p, h, m, param, true)[i]).0
                != "webDBName"@,
        contains_text(envelope_text(u, p, h, m, param, false), "ProcessWebServiceRequest"@),
        contains_text(envelope_text(u, p, h, m, param, true), "ProcessWebServiceRequestMultiWeb"@),
{
    reveal_strlit("webDBName");
    reveal_strlit("userID");
    reveal_strlit("password");
    reveal_strlit("skipLoginLog");
    reveal_strlit("parent");
    reveal_strlit("webServiceHandleName");
    reveal_strlit("methodName");
    reveal_strlit("paramStr");
    assert("userID"@.len() == 6);
    assert("password"@.len() == 8);
    assert("skipLoginLog"@.len() == 12);
    assert("parent"@.len() == 6);
    assert("webServiceHandleName"@.len() == 20);
    assert("methodName"@.len() == 10);
    assert("paramStr"@.len() == 8);
    assert("webDBName"@.len() == 9);
    let head =
        "<?xml version=\"1.0\" encoding=\"utf-8\"?>\n<soap:Envelope xmlns:xsi=\"http://www.w3.org/2001/XMLSchema-instance\" xmlns:xsd=\"http://www.w3.org/2001/XMLSchema\" xmlns:soap=\"http://schemas.xmlsoap.org/soap/envelope/\">\n<soap:Body>\n<"@;
    let envf = envelope_text(u, p, h, m, param, false);
    let opf = operation_name(false);
    assert(envf.subrange(head.len() as int, head.len() + opf.len() as int) =~= opf);
    assert(contains_text(envf, opf));
    let envt = envelope_text(u, p, h, m, param, true);
    let opt_name = operation_name(true);
    assert(envt.subrange(head.len() as int, head.len() + opt_name.len() as int) =~= opt_name);
    assert(contains_text(envt, opt_name));
}

} // verus!
