//! A cursor over the events of an XML document, and helpers that read the
//! elements of a response from it.
use vstd::prelude::*;
use std::collections::VecDeque;
use crate::text::str_equal;

verus! {

/// One event of an XML document; names are local names.
#[derive(Clone, Debug, PartialEq, Eq)]
pub enum XmlEvent {
    StartDocument,
    EndDocument,
    ProcessingInstruction(String),
    StartElement { name: String, attributes: Vec<(String, String)> },
    EndElement { name: String },
    CData(String),
    Comment(String),
    Characters(String),
    Whitespace(String),
}

/// An event, or the message of the reader's error in its place.
pub type XmlItem = Result<XmlEvent, String>;

/// Generic error for XML parsing.
#[derive(Debug)]
pub struct XmlParseError(pub String);

impl XmlParseError {
    pub fn new(msg: &str) -> (r: XmlParseError)
        ensures
            r.0@ == msg@,
    {
        XmlParseError(msg.to_owned())
    }
}

/// std's error for a failed integer parse, carried through as an opaque value.
#[verifier::external_type_specification]
#[verifier::external_body]
pub struct ExParseIntError(std::num::ParseIntError);

impl From<std::num::ParseIntError> for XmlParseError {
    /// The error `ParseIntError`, whatever the parse failure was.
    fn from(_e: std::num::ParseIntError) -> (r: XmlParseError) {
        XmlParseError::new("ParseIntError")
    }
}

impl vstd::std_specs::convert::FromSpecImpl<std::num::ParseIntError> for XmlParseError {
    open spec fn obeys_from_spec() -> bool {
        false
    }

    open spec fn from_spec(v: std::num::ParseIntError) -> XmlParseError {
        vstd::pervasive::arbitrary()
    }
}

/// The event is insignificant whitespace.
pub open spec fn is_whitespace_event(e: XmlItem) -> bool {
    e matches Ok(XmlEvent::Whitespace(_))
}

/// The events from the first one that is not whitespace on.
pub open spec fn skip_ws(s: Seq<XmlItem>) -> Seq<XmlItem>
    decreases s.len(),
{
    if s.len() > 0 && is_whitespace_event(s[0]) {
        skip_ws(s.drop_first())
    } else {
        s
    }
}

pub proof fn lemma_skip_ws(s: Seq<XmlItem>)
    ensures
        skip_ws(s).len() <= s.len(),
        skip_ws(s).len() > 0 ==> !is_whitespace_event(skip_ws(s)[0]),
        skip_ws(skip_ws(s)) == skip_ws(s),
    decreases s.len(),
{
    if s.len() > 0 && is_whitespace_event(s[0]) {
        lemma_skip_ws(s.drop_first());
    }
}

/// The event that `next` returns: the first that is not whitespace.
pub open spec fn next_event(s: Seq<XmlItem>) -> Option<XmlItem> {
    if skip_ws(s).len() == 0 {
        None
    } else {
        Some(skip_ws(s)[0])
    }
}

/// The events that `next` leaves.
pub open spec fn next_rest(s: Seq<XmlItem>) -> Seq<XmlItem> {
    if skip_ws(s).len() == 0 {
        skip_ws(s)
    } else {
        skip_ws(s).drop_first()
    }
}

pub proof fn lemma_next_rest_len(s: Seq<XmlItem>)
    ensures
        next_rest(s).len() <= s.len(),
        next_event(s) is Some ==> next_rest(s).len() < s.len(),
{
    lemma_skip_ws(s);
}

/// The events of a response, read from the front.
pub struct XmlResponse {
    stack: VecDeque<XmlItem>,
}

impl View for XmlResponse {
    type V = Seq<XmlItem>;

    closed spec fn view(&self) -> Seq<XmlItem> {
        self.stack@
    }
}

impl XmlResponse {
    /// A cursor at the first of `events`.
    pub fn new(events: Vec<XmlItem>) -> (r: XmlResponse)
        ensures
            r@ == events@,
    {
        let mut events = events;
        let ghost all = events@;
        let mut stack: VecDeque<XmlItem> = VecDeque::new();
        while events.len() > 0
            invariant
                events@ + stack@ == all,
            decreases events@.len(),
        {
            let ghost before = events@;
            let ghost before_stack = stack@;
            let e = events.pop().unwrap();
            stack.push_front(e);
            assert(events@ + stack@ =~= before + before_stack);
        }
        assert(stack@ =~= all);
        XmlResponse { stack }
    }

    fn skip_whitespace(&mut self)
        ensures
            final(self)@ == skip_ws(old(self)@),
    {
        while self.stack.len() > 0 && matches!(self.stack[0], Ok(XmlEvent::Whitespace(_)))
            invariant
                skip_ws(self@) == skip_ws(old(self)@),
            decreases self@.len(),
        {
            let ghost before = self@;
            self.stack.pop_front();
            assert(self@ =~= before.drop_first());
        }
    }

    /// The next event that is not whitespace, left in place; whitespace
    /// before it is consumed.
    pub fn peek(&mut self) -> (r: Option<&XmlItem>)
        ensures
            final(self)@ == skip_ws(old(self)@),
            r is None <==> final(self)@.len() == 0,
            r matches Some(e) ==> *e == final(self)@[0],
    {
        self.skip_whitespace();
        if self.stack.len() == 0 {
            None
        } else {
            Some(&self.stack[0])
        }
    }

    /// Consumes and returns the next event that is not whitespace.
    pub fn next(&mut self) -> (r: Option<XmlItem>)
        ensures
            r == next_event(old(self)@),
            final(self)@ == next_rest(old(self)@),
    {
        self.skip_whitespace();
        self.stack.pop_front()
    }
}

/// What `peek_at_name` saw: a start tag, an end tag, or no more events.
pub enum PeekedName<'a> {
    Start(&'a str),
    End(&'a str),
    Empty,
}

/// A `PeekedName` as plain values.
pub enum NameView {
    Start(Seq<char>),
    End(Seq<char>),
    Nothing,
}

/// The name of an event's kind.
pub open spec fn event_kind(e: XmlEvent) -> Seq<char> {
    match e {
        XmlEvent::StartDocument => "StartDocument"@,
        XmlEvent::EndDocument => "EndDocument"@,
        XmlEvent::ProcessingInstruction(_) => "ProcessingInstruction"@,
        XmlEvent::StartElement { .. } => "StartElement"@,
        XmlEvent::EndElement { .. } => "EndElement"@,
        XmlEvent::CData(_) => "CData"@,
        XmlEvent::Comment(_) => "Comment"@,
        XmlEvent::Characters(_) => "Characters"@,
        XmlEvent::Whitespace(_) => "Whitespace"@,
    }
}

/// The name of an event's kind.
pub fn event_kind_str(e: &XmlEvent) -> (r: &'static str)
    ensures
        r@ == event_kind(*e),
{
    match e {
        XmlEvent::StartDocument => "StartDocument",
        XmlEvent::EndDocument => "EndDocument",
        XmlEvent::ProcessingInstruction(_) => "ProcessingInstruction",
        XmlEvent::StartElement { .. } => "StartElement",
        XmlEvent::EndElement { .. } => "EndElement",
        XmlEvent::CData(_) => "CData",
        XmlEvent::Comment(_) => "Comment",
        XmlEvent::Characters(_) => "Characters",
        XmlEvent::Whitespace(_) => "Whitespace",
    }
}

/// What `peek_at_name` gives for events that start with no whitespace.
pub open spec fn peek_name_of(t: Seq<XmlItem>) -> Result<NameView, Seq<char>> {
    if t.len() == 0 {
        Ok(NameView::Nothing)
    } else {
        match t[0] {
            Ok(XmlEvent::StartElement { name, .. }) => Ok(NameView::Start(name@)),
            Ok(XmlEvent::EndElement { name }) => Ok(NameView::End(name@)),
            Ok(e) => Err("element "@ + event_kind(e) + " is not a `StartElement`"@),
            Err(m) => Err("failed to peek element: "@ + m@),
        }
    }
}

pub open spec fn peeked_view(r: Result<PeekedName, XmlParseError>) -> Result<NameView, Seq<char>> {
    match r {
        Ok(PeekedName::Start(n)) => Ok(NameView::Start(n@)),
        Ok(PeekedName::End(n)) => Ok(NameView::End(n@)),
        Ok(PeekedName::Empty) => Ok(NameView::Nothing),
        Err(e) => Err(e.0@),
    }
}

fn concat2(a: &str, b: &str) -> (r: String)
    ensures
        r@ == a@ + b@,
{
    let mut r = a.to_owned();
    r.append(b);
    r
}

fn concat3(a: &str, b: &str, c: &str) -> (r: String)
    ensures
        r@ == a@ + b@ + c@,
{
    let mut r = a.to_owned();
    r.append(b);
    r.append(c);
    r
}

/// The name of the element the next event opens or closes, `None` at the end
/// of the events, or an error for any other event.
pub fn peek_at_name(stack: &mut XmlResponse) -> (r: Result<PeekedName, XmlParseError>)
    ensures
        final(stack)@ == skip_ws(old(stack)@),
        peeked_view(r) == peek_name_of(skip_ws(old(stack)@)),
{
    let current = stack.peek();
    match current {
        Some(Ok(XmlEvent::StartElement { name, .. })) => Ok(PeekedName::Start(name.as_str())),
        Some(Ok(XmlEvent::EndElement { name })) => Ok(PeekedName::End(name.as_str())),
        Some(Ok(element)) => Err(
            XmlParseError(concat3("element ", event_kind_str(element), " is not a `StartElement`")),
        ),
        Some(Err(e)) => Err(XmlParseError(concat2("failed to peek element: ", e.as_str()))),
        None => Ok(PeekedName::Empty),
    }
}

/// What `characters` gives, and the events it leaves.
pub open spec fn characters_of(s: Seq<XmlItem>) -> (Result<Seq<char>, Seq<char>>, Seq<XmlItem>) {
    let t = skip_ws(s);
    if t.len() > 0 && t[0] matches Ok(XmlEvent::EndElement { .. }) {
        (Ok(Seq::empty()), t)
    } else {
        (
            match next_event(t) {
                Some(Ok(XmlEvent::Characters(data))) => Ok(data@),
                _ => Err("Expected characters"@),
            },
            next_rest(t),
        )
    }
}

pub open spec fn string_result_view(r: Result<String, XmlParseError>) -> Result<Seq<char>, Seq<char>> {
    match r {
        Ok(v) => Ok(v@),
        Err(e) => Err(e.0@),
    }
}

/// The text of the next event; empty where the next event closes an element.
pub fn characters(stack: &mut XmlResponse) -> (r: Result<String, XmlParseError>)
    ensures
        string_result_view(r) == characters_of(old(stack)@).0,
        final(stack)@ == characters_of(old(stack)@).1,
{
    proof {
        lemma_skip_ws(old(stack)@);
    }
    {
        let current = stack.peek();
        if let Some(Ok(XmlEvent::EndElement { .. })) = current {
            return Ok(String::new());
        }
    }
    if let Some(Ok(XmlEvent::Characters(data))) = stack.next() {
        Ok(data)
    } else {
        Err(XmlParseError::new("Expected characters"))
    }
}

/// Why the event is not a start tag named `name`, if it is not.
pub open spec fn start_error(name: Seq<char>, e: Option<XmlItem>) -> Option<Seq<char>> {
    match e {
        Some(Ok(XmlEvent::StartElement { name: n, .. })) => if n@ == name {
            None
        } else {
            Some("START Expected "@ + name + " got "@ + n@)
        },
        _ => Some("Expected StartElement "@ + name),
    }
}

/// Why the event is not an end tag named `name`, if it is not.
pub open spec fn end_error(name: Seq<char>, e: Option<XmlItem>) -> Option<Seq<char>> {
    match e {
        Some(Ok(XmlEvent::EndElement { name: n })) => if n@ == name {
            None
        } else {
            Some("END Expected "@ + name + " got "@ + n@)
        },
        _ => Some("Expected EndElement "@ + name),
    }
}

/// Consumes a start tag named `element_name` and returns its attributes.
pub fn start_element(element_name: &str, stack: &mut XmlResponse) -> (r: Result<
    Vec<(String, String)>,
    XmlParseError,
>)
    ensures
        final(stack)@ == next_rest(old(stack)@),
        r is Ok <==> start_error(element_name@, next_event(old(stack)@)) is None,
        r matches Ok(attrs) ==> next_event(old(stack)@) matches Some(
            Ok(XmlEvent::StartElement { attributes, .. }),
        ) && attrs == attributes,
        r matches Err(e) ==> Some(e.0@) == start_error(element_name@, next_event(old(stack)@)),
{
    let next = stack.next();
    if let Some(Ok(XmlEvent::StartElement { name, attributes })) = next {
        if str_equal(name.as_str(), element_name) {
            Ok(attributes)
        } else {
            let mut msg = concat3("START Expected ", element_name, " got ");
            msg.append(name.as_str());
            Err(XmlParseError(msg))
        }
    } else {
        Err(XmlParseError(concat2("Expected StartElement ", element_name)))
    }
}

/// Consumes an end tag named `element_name`.
pub fn end_element(element_name: &str, stack: &mut XmlResponse) -> (r: Result<(), XmlParseError>)
    ensures
        final(stack)@ == next_rest(old(stack)@),
        r is Ok <==> end_error(element_name@, next_event(old(stack)@)) is None,
        r matches Err(e) ==> Some(e.0@) == end_error(element_name@, next_event(old(stack)@)),
{
    let next = stack.next();
    if let Some(Ok(XmlEvent::EndElement { name })) = next {
        if str_equal(name.as_str(), element_name) {
            Ok(())
        } else {
            let mut msg = concat3("END Expected ", element_name, " got ");
            msg.append(name.as_str());
            Err(XmlParseError(msg))
        }
    } else {
        Err(XmlParseError(concat2("Expected EndElement ", element_name)))
    }
}

/// What `string_field` gives, and the events it leaves.
pub open spec fn string_field_of(name: Seq<char>, s: Seq<XmlItem>) -> (
    Result<Seq<char>, Seq<char>>,
    Seq<XmlItem>,
) {
    let s1 = next_rest(s);
    if start_error(name, next_event(s)) is Some {
        (Err(start_error(name, next_event(s))->0), s1)
    } else {
        let c = characters_of(s1);
        match c.0 {
            Err(m) => (Err(m), c.1),
            Ok(v) => {
                let s3 = next_rest(c.1);
                if end_error(name, next_event(c.1)) is Some {
                    (Err(end_error(name, next_event(c.1))->0), s3)
                } else {
                    (Ok(v), s3)
                }
            },
        }
    }
}

pub proof fn lemma_characters_len(s: Seq<XmlItem>)
    ensures
        characters_of(s).1.len() <= s.len(),
{
    lemma_skip_ws(s);
    lemma_next_rest_len(skip_ws(s));
}

pub proof fn lemma_string_field_len(name: Seq<char>, s: Seq<XmlItem>)
    requires
        next_event(s) is Some,
    ensures
        string_field_of(name, s).1.len() < s.len(),
{
    lemma_next_rest_len(s);
    lemma_characters_len(next_rest(s));
    lemma_next_rest_len(characters_of(next_rest(s)).1);
}

/// Reads `<name>text</name>` and returns the text.
pub fn string_field(name: &str, stack: &mut XmlResponse) -> (r: Result<String, XmlParseError>)
    ensures
        string_result_view(r) == string_field_of(name@, old(stack)@).0,
        final(stack)@ == string_field_of(name@, old(stack)@).1,
{
    match start_element(name, stack) {
        Ok(_) => {},
        Err(e) => return Err(e),
    }
    let value = match characters(stack) {
        Ok(v) => v,
        Err(e) => return Err(e),
    };
    match end_element(name, stack) {
        Ok(()) => Ok(value),
        Err(e) => Err(e),
    }
}

/// The events left after skipping a subtree whose `depth` start tags are
/// open: every start tag opens one more, every end tag closes one, and the
/// end tag that closes the last (or any end tag where none is open) is the
/// last event consumed.
pub open spec fn skip_tree_of(s: Seq<XmlItem>, depth: nat) -> Seq<XmlItem>
    decreases s.len(),
{
    if s.len() == 0 {
        s
    } else {
        match s[0] {
            Ok(XmlEvent::StartElement { .. }) => skip_tree_of(s.drop_first(), depth + 1),
            Ok(XmlEvent::EndElement { .. }) => if depth > 1 {
                skip_tree_of(s.drop_first(), (depth - 1) as nat)
            } else {
                s.drop_first()
            },
            _ => skip_tree_of(s.drop_first(), depth),
        }
    }
}

pub proof fn lemma_skip_tree_ws(s: Seq<XmlItem>, depth: nat)
    ensures
        skip_tree_of(skip_ws(s), depth) == skip_tree_of(s, depth),
        s.len() > 0 ==> skip_tree_of(s, depth).len() < s.len(),
    decreases s.len(),
{
    if s.len() > 0 {
        lemma_skip_tree_ws(s.drop_first(), depth + 1);
        lemma_skip_tree_ws(s.drop_first(), depth);
        if depth > 1 {
            lemma_skip_tree_ws(s.drop_first(), (depth - 1) as nat);
        }
    }
}

/// Skips a tag and all its children.
pub fn skip_tree(stack: &mut XmlResponse)
    ensures
        final(stack)@ == skip_tree_of(old(stack)@, 0),
{
    let total = stack.stack.len();
    let mut deep: usize = 0;
    let mut done = false;
    while !done
        invariant
            !done ==> skip_tree_of(stack@, deep as nat) == skip_tree_of(old(stack)@, 0),
            done ==> stack@ == skip_tree_of(old(stack)@, 0),
            deep + stack@.len() <= total,
        decreases stack@.len() + (if done { 0int } else { 1int }),
    {
        let ghost before = stack@;
        proof {
            lemma_skip_tree_ws(before, deep as nat);
            lemma_skip_ws(before);
            lemma_next_rest_len(before);
        }
        match stack.next() {
            None => {
                done = true;
            },
            Some(Ok(XmlEvent::StartElement { .. })) => {
                deep = deep + 1;
            },
            Some(Ok(XmlEvent::EndElement { .. })) => {
                if deep > 1 {
                    deep = deep - 1;
                } else {
                    done = true;
                }
            },
            _ => {},
        }
    }
}

/// The events from the first start tag or reader error on.
pub open spec fn find_start_of(s: Seq<XmlItem>) -> Seq<XmlItem>
    decreases s.len(),
{
    if s.len() == 0 {
        s
    } else {
        match s[0] {
            Ok(XmlEvent::StartElement { .. }) => s,
            Ok(_) => find_start_of(s.drop_first()),
            Err(_) => s,
        }
    }
}

pub proof fn lemma_find_start_ws(s: Seq<XmlItem>)
    ensures
        find_start_of(skip_ws(s)) == find_start_of(s),
    decreases s.len(),
{
    if s.len() > 0 {
        lemma_find_start_ws(s.drop_first());
    }
}

/// Skips events up to the next start tag; a reader error or the end of the
/// events also stops it.
pub fn find_start_element(stack: &mut XmlResponse)
    ensures
        final(stack)@ == find_start_of(old(stack)@),
{
    let mut done = false;
    while !done
        invariant
            !done ==> find_start_of(stack@) == find_start_of(old(stack)@),
            done ==> stack@ == find_start_of(old(stack)@),
        decreases stack@.len() + (if done { 0int } else { 1int }),
    {
        let ghost before = stack@;
        proof {
            lemma_find_start_ws(before);
            lemma_skip_ws(before);
        }
        let advance = match stack.peek() {
            Some(Ok(XmlEvent::StartElement { .. })) => false,
            Some(Ok(_)) => true,
            Some(Err(_)) => false,
            None => false,
        };
        if advance {
            stack.next();
        } else {
            done = true;
        }
    }
}

} // verus!
