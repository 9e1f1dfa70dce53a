//! Streaming XML events.
//!
//! The record parser works over the sequence of events that a single forward
//! pass of an XML tokenizer produces. Tokenization itself is delegated to the
//! `quick_xml` crate behind a trusted wrapper; everything that interprets the
//! events is verified against the event sequence.

use vstd::prelude::*;

verus! {

/// One attribute of a tag, with its undecoded value.
pub struct Attr {
    pub name: String,
    pub value: String,
}

/// The mathematical content of an [`Attr`].
pub struct AttrView {
    pub name: Seq<char>,
    pub value: Seq<char>,
}

impl View for Attr {
    type V = AttrView;

    open spec fn view(&self) -> AttrView {
        AttrView { name: self.name@, value: self.value@ }
    }
}

impl DeepView for Attr {
    type V = AttrView;

    open spec fn deep_view(&self) -> AttrView {
        self@
    }
}

/// One event of a forward pass over an XML document.
///
/// `Text` carries the entity-decoded content, or the tokenizer's error text
/// when the content holds an invalid entity; decoding is deferred exactly as
/// a pull parser defers it, so an invalid entity only matters to extractors
/// that read the text. `Fault` reports a malformed document at the point the
/// tokenizer gave up; it is always the last event of a pass.
pub enum XmlEvent {
    /// A start tag `<tag ...>`.
    Open { name: String, attrs: Vec<Attr> },
    /// A self-closing tag `<tag ... />`.
    SelfClose { name: String, attrs: Vec<Attr> },
    /// An end tag `</tag>`.
    Close { name: String },
    /// Character data between tags.
    Text { text: Result<String, String> },
    /// Malformed XML; the tokenizer's error text.
    Fault { message: String },
}

/// The mathematical content of an [`XmlEvent`].
pub enum EventView {
    Open { name: Seq<char>, attrs: Seq<AttrView> },
    SelfClose { name: Seq<char>, attrs: Seq<AttrView> },
    Close { name: Seq<char> },
    Text { text: Result<Seq<char>, Seq<char>> },
    Fault { message: Seq<char> },
}

impl View for XmlEvent {
    type V = EventView;

    open spec fn view(&self) -> EventView {
        match self {
            XmlEvent::Open { name, attrs } => EventView::Open {
                name: name@,
                attrs: attrs.deep_view(),
            },
            XmlEvent::SelfClose { name, attrs } => EventView::SelfClose {
                name: name@,
                attrs: attrs.deep_view(),
            },
            XmlEvent::Close { name } => EventView::Close { name: name@ },
            XmlEvent::Text { text } => EventView::Text {
                text: match text {
                    Ok(t) => Ok(t@),
                    Err(m) => Err(m@),
                },
            },
            XmlEvent::Fault { message } => EventView::Fault { message: message@ },
        }
    }
}

impl DeepView for XmlEvent {
    type V = EventView;

    open spec fn deep_view(&self) -> EventView {
        self@
    }
}

/// The value of the last attribute named `name`, if any. The last one, since
/// an extractor that walks the attribute list lets later duplicates
/// overwrite earlier ones.
pub open spec fn attr_last(attrs: Seq<AttrView>, name: Seq<char>) -> Option<Seq<char>>
    decreases attrs.len(),
{
    if attrs.len() == 0 {
        None
    } else if attrs.last().name == name {
        Some(attrs.last().value)
    } else {
        attr_last(attrs.drop_last(), name)
    }
}

/// The value of the last attribute named `name`, or `dflt` where the
/// attribute is missing.
pub open spec fn attr_or(attrs: Seq<AttrView>, name: Seq<char>, dflt: Seq<char>) -> Seq<char> {
    match attr_last(attrs, name) {
        Some(v) => v,
        None => dflt,
    }
}

/// The value of the last attribute named `name`, or the empty string.
pub open spec fn attr_or_empty(attrs: Seq<AttrView>, name: Seq<char>) -> Seq<char> {
    attr_or(attrs, name, Seq::empty())
}

/// A boolean attribute: true exactly for the literal value `true`; anything
/// else, including absence, is false.
pub open spec fn attr_flag(attrs: Seq<AttrView>, name: Seq<char>) -> bool {
    attr_or_empty(attrs, name) == "true"@
}

/// The values of every attribute named `name`, in order.
pub open spec fn attr_values(attrs: Seq<AttrView>, name: Seq<char>) -> Seq<Seq<char>>
    decreases attrs.len(),
{
    if attrs.len() == 0 {
        Seq::empty()
    } else {
        let rest = attr_values(attrs.drop_last(), name);
        if attrs.last().name == name {
            rest.push(attrs.last().value)
        } else {
            rest
        }
    }
}

/// Appending one attribute only changes a lookup when the names match.
pub proof fn lemma_attr_last_snoc(attrs: Seq<AttrView>, a: AttrView, name: Seq<char>)
    ensures
        attr_last(attrs.push(a), name) == if a.name == name {
            Some(a.value)
        } else {
            attr_last(attrs, name)
        },
        attr_values(attrs.push(a), name) == if a.name == name {
            attr_values(attrs, name).push(a.value)
        } else {
            attr_values(attrs, name)
        },
{
    assert(attrs.push(a).last() == a);
    assert(attrs.push(a).drop_last() =~= attrs);
}

/// The value of the last attribute named `name`, or the empty string.
pub fn attr_string(attrs: &Vec<Attr>, name: &str) -> (r: String)
    ensures
        r@ == attr_or_empty(attrs.deep_view(), name@),
{
    let mut out = String::new();
    let mut i: usize = 0;
    while i < attrs.len()
        invariant
            0 <= i <= attrs@.len(),
            out@ == attr_or_empty(attrs.deep_view().take(i as int), name@),
        decreases attrs@.len() - i,
    {
        proof {
            assert(attrs.deep_view()[i as int] == attrs@[i as int]@);
            lemma_attr_last_snoc(attrs.deep_view().take(i as int), attrs@[i as int]@, name@);
            assert(attrs.deep_view().take(i as int).push(attrs.deep_view()[i as int])
                =~= attrs.deep_view().take(i as int + 1));
        }
        if crate::strutil::str_eq(attrs[i].name.as_str(), name) {
            out = attrs[i].value.clone();
        }
        i = i + 1;
    }
    proof {
        assert(attrs.deep_view().take(attrs@.len() as int) =~= attrs.deep_view());
    }
    out
}

/// The value of the last attribute named `name`, or `dflt` where the
/// attribute is missing.
pub fn attr_string_or(attrs: &Vec<Attr>, name: &str, dflt: String) -> (r: String)
    ensures
        r@ == attr_or(attrs.deep_view(), name@, dflt@),
{
    let ghost dv = dflt@;
    let mut out = dflt;
    let mut i: usize = 0;
    while i < attrs.len()
        invariant
            0 <= i <= attrs@.len(),
            out@ == attr_or(attrs.deep_view().take(i as int), name@, dv),
        decreases attrs@.len() - i,
    {
        proof {
            assert(attrs.deep_view()[i as int] == attrs@[i as int]@);
            lemma_attr_last_snoc(attrs.deep_view().take(i as int), attrs@[i as int]@, name@);
            assert(attrs.deep_view().take(i as int).push(attrs.deep_view()[i as int])
                =~= attrs.deep_view().take(i as int + 1));
        }
        if crate::strutil::str_eq(attrs[i].name.as_str(), name) {
            out = attrs[i].value.clone();
        }
        i = i + 1;
    }
    proof {
        assert(attrs.deep_view().take(attrs@.len() as int) =~= attrs.deep_view());
    }
    out
}

/// Whether the last attribute named `name` has the literal value `true`.
pub fn attr_bool(attrs: &Vec<Attr>, name: &str) -> (r: bool)
    ensures
        r == attr_flag(attrs.deep_view(), name@),
{
    let v = attr_string(attrs, name);
    crate::strutil::str_eq(v.as_str(), "true")
}

/// The values of every attribute named `name`, in order.
pub fn attr_strings(attrs: &Vec<Attr>, name: &str) -> (r: Vec<String>)
    ensures
        r.deep_view() == attr_values(attrs.deep_view(), name@),
{
    let mut out: Vec<String> = Vec::new();
    let mut i: usize = 0;
    while i < attrs.len()
        invariant
            0 <= i <= attrs@.len(),
            out.deep_view() == attr_values(attrs.deep_view().take(i as int), name@),
        decreases attrs@.len() - i,
    {
        proof {
            assert(attrs.deep_view()[i as int] == attrs@[i as int]@);
            lemma_attr_last_snoc(attrs.deep_view().take(i as int), attrs@[i as int]@, name@);
            assert(attrs.deep_view().take(i as int).push(attrs.deep_view()[i as int])
                =~= attrs.deep_view().take(i as int + 1));
        }
        if crate::strutil::str_eq(attrs[i].name.as_str(), name) {
            let ghost prev = out.deep_view();
            out.push(attrs[i].value.clone());
            proof {
                assert(out.deep_view() =~= prev.push(attrs@[i as int].value@));
            }
        }
        i = i + 1;
    }
    proof {
        assert(attrs.deep_view().take(attrs@.len() as int) =~= attrs.deep_view());
    }
    out
}

/// Some event of the pass reports malformed XML.
pub open spec fn has_fault(evs: Seq<EventView>) -> bool {
    exists|i: int| 0 <= i < evs.len() && evs[i] is Fault
}

/// The error text of the first `Fault` event, or the empty string where
/// there is none.
pub open spec fn first_fault_msg(evs: Seq<EventView>) -> Seq<char>
    decreases evs.len(),
{
    if evs.len() == 0 {
        Seq::empty()
    } else if evs[0] is Fault {
        evs[0]->Fault_message
    } else {
        first_fault_msg(evs.skip(1))
    }
}

/// The fault with no fault before it carries the first fault text.
pub proof fn lemma_first_fault(evs: Seq<EventView>, i: int)
    requires
        0 <= i < evs.len(),
        evs[i] is Fault,
        forall|j: int| 0 <= j < i ==> !(#[trigger] evs[j] is Fault),
    ensures
        has_fault(evs),
        first_fault_msg(evs) == evs[i]->Fault_message,
    decreases i,
{
    if i == 0 {
    } else {
        assert(!(evs[0] is Fault));
        assert(forall|j: int| 0 <= j < i - 1 ==> !(#[trigger] evs.skip(1)[j] is Fault));
        assert(evs.skip(1)[i - 1] == evs[i]);
        lemma_first_fault(evs.skip(1), i - 1);
    }
}

/// The events that one forward pass over the document `s` yields: what the
/// `quick_xml` tokenizer, with whitespace-only text trimmed away, produces on
/// `s`. A function of the document alone.
pub uninterp spec fn xml_events(s: Seq<char>) -> Seq<EventView>;

/// quick_xml's event type, declared opaquely so the wrappers below can take it.
#[verifier::external_type_specification]
#[verifier::external_body]
pub struct ExEvent<'a>(quick_xml::events::Event<'a>);

/// quick_xml's start/empty-tag payload, declared opaquely.
#[verifier::external_type_specification]
#[verifier::external_body]
pub struct ExBytesStart<'a>(quick_xml::events::BytesStart<'a>);

/// quick_xml's end-tag payload, declared opaquely.
#[verifier::external_type_specification]
#[verifier::external_body]
pub struct ExBytesEnd<'a>(quick_xml::events::BytesEnd<'a>);

/// quick_xml's text payload, declared opaquely.
#[verifier::external_type_specification]
#[verifier::external_body]
pub struct ExBytesText<'a>(quick_xml::events::BytesText<'a>);

/// Relies on quick_xml's `BytesStart::name`: the raw tag-name bytes as they
/// stand in the input, decoded lossily.
#[verifier::external_body]
fn start_name(e: &quick_xml::events::BytesStart) -> String {
    String::from_utf8_lossy(e.name().as_ref()).into_owned()
}

/// Relies on quick_xml's `BytesStart::attributes`: the well-formed attributes
/// of the tag in document order, with undecoded values; malformed attributes
/// are skipped.
#[verifier::external_body]
fn attr_pairs(e: &quick_xml::events::BytesStart) -> Vec<Attr> {
    e.attributes().flatten().map(
        |a: quick_xml::events::attributes::Attribute| Attr {
            name: String::from_utf8_lossy(a.key.as_ref()).into_owned(),
            value: String::from_utf8_lossy(&a.value).into_owned(),
        },
    ).collect()
}

/// Relies on quick_xml's `BytesEnd::name`: the raw tag-name bytes as they
/// stand in the input, decoded lossily.
#[verifier::external_body]
fn end_name(e: &quick_xml::events::BytesEnd) -> String {
    String::from_utf8_lossy(e.name().as_ref()).into_owned()
}

/// Relies on quick_xml's `BytesText::unescape`: the entity-decoded content,
/// or the tokenizer's error text when the content holds an invalid entity.
#[verifier::external_body]
fn text_content(e: &quick_xml::events::BytesText) -> Result<String, String> {
    match e.unescape() {
        Ok(t) => Ok(t.into_owned()),
        Err(err) => Err(err.to_string()),
    }
}

/// Relies on quick_xml's `Event`: one library event per tag or text token;
/// declarations, comments, processing instructions and CDATA carry nothing
/// the record shapes read.
#[verifier::external_body]
fn convert(ev: quick_xml::events::Event) -> Option<XmlEvent> {
    match ev {
        quick_xml::events::Event::Start(e) => Some(XmlEvent::Open { name: start_name(&e), attrs: attr_pairs(&e) }),
        quick_xml::events::Event::Empty(e) => Some(XmlEvent::SelfClose { name: start_name(&e), attrs: attr_pairs(&e) }),
        quick_xml::events::Event::End(e) => Some(XmlEvent::Close { name: end_name(&e) }),
        quick_xml::events::Event::Text(e) => Some(XmlEvent::Text { text: text_content(&e) }),
        _ => None,
    }
}

/// One forward pass over `s`.
///
/// Relies on quick_xml's `Reader::read_event` over an in-memory string, with
/// whitespace-only text trimmed: one event per XML token until end of input,
/// or a final `Fault` where the document is malformed.
#[verifier::external_body]
pub(crate) fn tokenize(s: &str) -> (r: Vec<XmlEvent>)
    ensures
        r.deep_view() == xml_events(s@),
{
    let mut rd = quick_xml::Reader::from_str(s);
    rd.trim_text(true);
    let mut out: Vec<XmlEvent> = Vec::new();
    loop {
        match rd.read_event() {
            Ok(quick_xml::events::Event::Eof) => return out,
            Ok(ev) => if let Some(x) = convert(ev) { out.push(x) },
            Err(e) => { out.push(XmlEvent::Fault { message: e.to_string() }); return out; }
        }
    }
}

} // verus!
