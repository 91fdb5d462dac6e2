//! Reads the `<Error>` element of an XML error response.
use vstd::prelude::*;
use crate::text::str_equal;
use crate::xmlutil::{
    characters, characters_of, end_element, end_error, lemma_characters_len, lemma_next_rest_len,
    lemma_skip_tree_ws, lemma_skip_ws, lemma_string_field_len, next_event, next_rest,
    peek_at_name, peek_name_of, skip_tree, skip_tree_of, skip_ws, start_element, start_error,
    string_field, string_field_of, NameView, PeekedName, XmlItem, XmlParseError, XmlResponse,
};

verus! {

/// The fields of a service's error response.
#[derive(Debug)]
pub struct XmlError {
    pub error_type: String,
    pub code: String,
    pub message: String,
    pub detail: Option<String>,
}

/// An `XmlError` as plain values.
pub struct XmlErrorView {
    pub error_type: Seq<char>,
    pub code: Seq<char>,
    pub message: Seq<char>,
    pub detail: Option<Seq<char>>,
}

impl View for XmlError {
    type V = XmlErrorView;

    open spec fn view(&self) -> XmlErrorView {
        XmlErrorView {
            error_type: self.error_type@,
            code: self.code@,
            message: self.message@,
            detail: match self.detail {
                Some(d) => Some(d@),
                None => None,
            },
        }
    }
}

/// An error with every field empty.
pub open spec fn empty_error() -> XmlErrorView {
    XmlErrorView {
        error_type: Seq::empty(),
        code: Seq::empty(),
        message: Seq::empty(),
        detail: None,
    }
}

/// What reading the child element `name` (its start tag is next in `t`)
/// does to the error read so far, and the events it leaves. `Type`, `Code`
/// and `Message` are text fields; `Detail` is taken where it holds text;
/// any other element is skipped.
pub open spec fn field_step(name: Seq<char>, t: Seq<XmlItem>, obj: XmlErrorView) -> (
    Result<XmlErrorView, Seq<char>>,
    Seq<XmlItem>,
) {
    if name == "Type"@ {
        let f = string_field_of("Type"@, t);
        (
            match f.0 {
                Ok(v) => Ok(XmlErrorView { error_type: v, ..obj }),
                Err(m) => Err(m),
            },
            f.1,
        )
    } else if name == "Code"@ {
        let f = string_field_of("Code"@, t);
        (
            match f.0 {
                Ok(v) => Ok(XmlErrorView { code: v, ..obj }),
                Err(m) => Err(m),
            },
            f.1,
        )
    } else if name == "Message"@ {
        let f = string_field_of("Message"@, t);
        (
            match f.0 {
                Ok(v) => Ok(XmlErrorView { message: v, ..obj }),
                Err(m) => Err(m),
            },
            f.1,
        )
    } else if name == "Detail"@ {
        if start_error("Detail"@, next_event(t)) is Some {
            (Err(start_error("Detail"@, next_event(t))->0), next_rest(t))
        } else {
            let c = characters_of(next_rest(t));
            match c.0 {
                Ok(v) => if end_error("Detail"@, next_event(c.1)) is Some {
                    (Err(end_error("Detail"@, next_event(c.1))->0), next_rest(c.1))
                } else {
                    (Ok(XmlErrorView { detail: Some(v), ..obj }), next_rest(c.1))
                },
                Err(_) => (Ok(obj), c.1),
            }
        }
    } else {
        (Ok(obj), skip_tree_of(t, 0))
    }
}

/// Reads child elements until the end tag `Error`, and the events left
/// then. Each child consumes at least one event.
pub open spec fn fields_of(s: Seq<XmlItem>, obj: XmlErrorView) -> (
    Result<XmlErrorView, Seq<char>>,
    Seq<XmlItem>,
)
    decreases s.len(),
{
    let t = skip_ws(s);
    match peek_name_of(t) {
        Err(m) => (Err(m), t),
        Ok(NameView::Nothing) => (Err("unexpected end of XML input"@), t),
        Ok(NameView::End(n)) => if n == "Error"@ {
            (Ok(obj), t)
        } else {
            (Err("unexpected end element"@), t)
        },
        Ok(NameView::Start(n)) => {
            let f = field_step(n, t, obj);
            match f.0 {
                Err(m) => (Err(m), f.1),
                Ok(o) => if f.1.len() < s.len() {
                    fields_of(f.1, o)
                } else {
                    (Ok(o), f.1)
                },
            }
        },
    }
}

/// What `deserialize` gives for the element `tag`, and the events it leaves.
pub open spec fn deserialize_of(tag: Seq<char>, s: Seq<XmlItem>) -> (
    Result<XmlErrorView, Seq<char>>,
    Seq<XmlItem>,
) {
    if start_error(tag, next_event(s)) is Some {
        (Err(start_error(tag, next_event(s))->0), next_rest(s))
    } else {
        let f = fields_of(next_rest(s), empty_error());
        match f.0 {
            Err(m) => (Err(m), f.1),
            Ok(o) => if end_error(tag, next_event(f.1)) is Some {
                (Err(end_error(tag, next_event(f.1))->0), next_rest(f.1))
            } else {
                (Ok(o), next_rest(f.1))
            },
        }
    }
}

pub open spec fn error_result_view(r: Result<XmlError, XmlParseError>) -> Result<
    XmlErrorView,
    Seq<char>,
> {
    match r {
        Ok(e) => Ok(e@),
        Err(e) => Err(e.0@),
    }
}

enum Child {
    Type,
    Code,
    Message,
    Detail,
    Other,
    Close,
}

/// Reads XML error responses.
pub struct XmlErrorDeserializer;

impl XmlErrorDeserializer {
    /// Reads the element `tag_name` that holds an `<Error>`'s fields.
    pub fn deserialize(tag_name: &str, stack: &mut XmlResponse) -> (r: Result<
        XmlError,
        XmlParseError,
    >)
        ensures
            error_result_view(r) == deserialize_of(tag_name@, old(stack)@).0,
            final(stack)@ == deserialize_of(tag_name@, old(stack)@).1,
    {
        match start_element(tag_name, stack) {
            Ok(_) => {},
            Err(e) => return Err(e),
        }
        let mut obj = XmlError {
            error_type: String::new(),
            code: String::new(),
            message: String::new(),
            detail: None,
        };
        let ghost s1 = stack@;
        let mut done = false;
        while !done
            invariant
                s1 == next_rest(old(stack)@),
                start_error(tag_name@, next_event(old(stack)@)) is None,
                !done ==> fields_of(stack@, obj@) == fields_of(s1, empty_error()),
                done ==> fields_of(s1, empty_error()) == (
                    Ok::<XmlErrorView, Seq<char>>(obj@),
                    stack@,
                ),
            decreases stack@.len() + (if done {
                0int
            } else {
                1int
            }),
        {
            let ghost cur = stack@;
            let ghost obj0 = obj@;
            proof {
                lemma_skip_ws(cur);
            }
            let child = match peek_at_name(stack) {
                Err(e) => return Err(e),
                Ok(PeekedName::Start(n)) => {
                    if str_equal(n, "Type") {
                        Child::Type
                    } else if str_equal(n, "Code") {
                        Child::Code
                    } else if str_equal(n, "Message") {
                        Child::Message
                    } else if str_equal(n, "Detail") {
                        Child::Detail
                    } else {
                        Child::Other
                    }
                },
                Ok(PeekedName::End(n)) => {
                    if str_equal(n, "Error") {
                        Child::Close
                    } else {
                        return Err(XmlParseError::new("unexpected end element"));
                    }
                },
                Ok(PeekedName::Empty) => return Err(
                    XmlParseError::new("unexpected end of XML input"),
                ),
            };
            let ghost t = stack@;
            proof {
                if t.len() > 0 {
                    assert(next_event(t) is Some);
                    lemma_string_field_len("Type"@, t);
                    lemma_string_field_len("Code"@, t);
                    lemma_string_field_len("Message"@, t);
                    lemma_next_rest_len(t);
                    lemma_characters_len(next_rest(t));
                    lemma_next_rest_len(characters_of(next_rest(t)).1);
                    lemma_skip_tree_ws(t, 0);
                }
            }
            match child {
                Child::Type => match string_field("Type", stack) {
                    Ok(v) => obj.error_type = v,
                    Err(e) => return Err(e),
                },
                Child::Code => match string_field("Code", stack) {
                    Ok(v) => obj.code = v,
                    Err(e) => return Err(e),
                },
                Child::Message => match string_field("Message", stack) {
                    Ok(v) => obj.message = v,
                    Err(e) => return Err(e),
                },
                Child::Detail => {
                    match start_element("Detail", stack) {
                        Ok(_) => {},
                        Err(e) => return Err(e),
                    }
                    if let Ok(chars) = characters(stack) {
                        obj.detail = Some(chars);
                        match end_element("Detail", stack) {
                            Ok(()) => {},
                            Err(e) => return Err(e),
                        }
                    }
                },
                Child::Other => skip_tree(stack),
                Child::Close => done = true,
            }
            assert(done || fields_of(cur, obj0) == fields_of(stack@, obj@));
        }
        match end_element(tag_name, stack) {
            Ok(()) => Ok(obj),
            Err(e) => Err(e),
        }
    }
}

} // verus!
