//! The events of the surrounding stream, as far as a map over a start tag
//! reads them.

use crate::attributes::Attributes;
use vstd::prelude::*;
use vstd::slice::{slice_subrange, slice_to_vec};

verus! {

/// The mathematical content of a start tag: its bytes, and how many of them
/// make up the name.
pub struct StartTag {
    pub buf: Seq<u8>,
    pub name_len: nat,
}

impl StartTag {
    /// The name lies within the bytes.
    pub open spec fn wf(self) -> bool {
        self.name_len <= self.buf.len()
    }

    /// The name of the element.
    pub open spec fn name(self) -> Seq<u8> {
        self.buf.subrange(0, self.name_len as int)
    }
}

/// An owned snapshot of a start tag: the element's name, followed by the raw
/// bytes of its attributes.
#[derive(Debug, PartialEq, Eq)]
pub struct BytesStart {
    buf: Vec<u8>,
    name_len: usize,
}

impl View for BytesStart {
    type V = StartTag;

    closed spec fn view(&self) -> StartTag {
        StartTag { buf: self.buf@, name_len: self.name_len as nat }
    }
}

impl Clone for BytesStart {
    fn clone(&self) -> (r: BytesStart)
        ensures
            r@ == self@,
    {
        proof {
            use_type_invariant(self);
        }
        BytesStart { buf: slice_to_vec(self.buf.as_slice()), name_len: self.name_len }
    }
}

impl BytesStart {
    #[verifier::type_invariant]
    spec fn inv(self) -> bool {
        self.name_len <= self.buf.len()
    }

    /// A start tag from its bytes, the first `name_len` of which are the name.
    pub fn owned(buf: Vec<u8>, name_len: usize) -> (r: BytesStart)
        requires
            name_len <= buf@.len(),
        ensures
            r@ == (StartTag { buf: buf@, name_len: name_len as nat }),
            r@.wf(),
    {
        BytesStart { buf, name_len }
    }

    /// A start tag without attributes.
    pub fn owned_name(name: Vec<u8>) -> (r: BytesStart)
        ensures
            r@ == (StartTag { buf: name@, name_len: name@.len() }),
            r@.wf(),
    {
        let name_len: usize = name.len();
        BytesStart { buf: name, name_len }
    }

    /// The name of the element.
    pub fn name(&self) -> (r: &[u8])
        ensures
            r@ == self@.name(),
            self@.wf(),
    {
        proof {
            use_type_invariant(self);
        }
        slice_subrange(self.buf.as_slice(), 0, self.name_len)
    }

    /// A cursor over the attributes, placed right behind the name.
    pub fn attributes(&self) -> (r: Attributes<'_>)
        ensures
            r.bytes@ == self@.buf,
            r.position == self@.name_len,
            self@.wf(),
    {
        proof {
            use_type_invariant(self);
        }
        Attributes::new(self.buf.as_slice(), self.name_len)
    }
}

/// The mathematical content of an [`Event`].
pub enum EventView {
    Start(StartTag),
    End,
    Text,
    Other,
}

/// An event of the surrounding stream. A map reads no more of an event than
/// its kind and, of a start tag, the name.
#[derive(Debug, PartialEq, Eq)]
pub enum Event {
    /// The start tag of a child element.
    Start(BytesStart),
    /// An end tag.
    End,
    /// Character data.
    Text,
    /// Anything else.
    Other,
}

impl Clone for Event {
    fn clone(&self) -> (r: Event)
        ensures
            r@ == self@,
    {
        match self {
            Event::Start(e) => Event::Start(e.clone()),
            Event::End => Event::End,
            Event::Text => Event::Text,
            Event::Other => Event::Other,
        }
    }
}

impl View for Event {
    type V = EventView;

    open spec fn view(&self) -> EventView {
        match self {
            Event::Start(e) => EventView::Start(e@),
            Event::End => EventView::End,
            Event::Text => EventView::Text,
            Event::Other => EventView::Other,
        }
    }
}

} // verus!
