//! The map over one start tag: a pull protocol of alternating key and value
//! requests, attributes first, then what follows the tag in the stream.

use crate::attributes::{lemma_read_attr_bounds, read_attr, Attribute, Found};
use crate::errors::{AttrError, DeError};
use crate::events::{BytesStart, Event, EventView, StartTag};
use vstd::prelude::*;
use vstd::slice::slice_to_vec;

verus! {

/// The key that stands for the element's own text or mixed content. No XML
/// name starts with `$`, so it cannot collide with the name of an attribute or
/// of a child element.
pub const INNER_VALUE: &'static str = "$value";

/// Where the value of the last key is to be read from.
#[derive(Clone, Debug, PartialEq, Eq)]
pub enum MapValue {
    /// No key is pending.
    Empty,
    /// The key was an attribute's name: its raw value.
    Attribute { value: Vec<u8> },
    /// The key was the name of a child element, whose start tag is the next
    /// event of the stream.
    Nested,
    /// The key was [`INNER_VALUE`]: the content is still in the stream.
    InnerValue,
}

/// The mathematical content of a [`MapValue`].
pub enum Pending {
    Empty,
    Attribute(Seq<u8>),
    Nested,
    InnerValue,
}

impl View for MapValue {
    type V = Pending;

    open spec fn view(&self) -> Pending {
        match self {
            MapValue::Empty => Pending::Empty,
            MapValue::Attribute { value } => Pending::Attribute(value@),
            MapValue::Nested => Pending::Nested,
            MapValue::InnerValue => Pending::InnerValue,
        }
    }
}

/// A key of the map, before it is decoded.
#[derive(Clone, Debug, PartialEq, Eq)]
pub enum Key {
    /// The raw name of an attribute or of a child element, to be decoded as a
    /// name.
    Name(Vec<u8>),
    /// The reserved key [`INNER_VALUE`].
    InnerValue,
}

/// The mathematical content of a [`Key`].
pub enum KeyView {
    Name(Seq<u8>),
    InnerValue,
}

impl View for Key {
    type V = KeyView;

    open spec fn view(&self) -> KeyView {
        match self {
            Key::Name(name) => KeyView::Name(name@),
            Key::InnerValue => KeyView::InnerValue,
        }
    }
}

/// How far the attributes alone answer a key request.
#[derive(Clone, Debug, PartialEq, Eq)]
pub enum KeyStep {
    /// The next key is the name of an attribute.
    Key(Key),
    /// No attribute is left: the next event of the stream decides. The caller
    /// peeks at it, without consuming it, and hands it to
    /// [`MapAccess::key_from_event`].
    Peek,
}

/// The mathematical content of a [`KeyStep`].
pub enum KeyStepView {
    Key(KeyView),
    Peek,
}

impl View for KeyStep {
    type V = KeyStepView;

    open spec fn view(&self) -> KeyStepView {
        match self {
            KeyStep::Key(key) => KeyStepView::Key(key@),
            KeyStep::Peek => KeyStepView::Peek,
        }
    }
}

/// Where the value of a key is read from.
#[derive(Clone, Debug, PartialEq, Eq)]
pub enum Value {
    /// The raw value of an attribute, to be decoded as an attribute value.
    Attribute(Vec<u8>),
    /// The surrounding stream, which still holds the event that produced the
    /// key.
    Stream,
}

/// The mathematical content of a [`Value`].
pub enum ValueView {
    Attribute(Seq<u8>),
    Stream,
}

impl View for Value {
    type V = ValueView;

    open spec fn view(&self) -> ValueView {
        match self {
            Value::Attribute(value) => ValueView::Attribute(value@),
            Value::Stream => ValueView::Stream,
        }
    }
}

/// The state of a map over a start tag.
pub struct MapState<D> {
    /// The tag, which never changes.
    pub tag: StartTag,
    /// The decoding context, which never changes.
    pub decoder: D,
    /// Where the next attribute is read.
    pub position: int,
    /// Where the value of the last key is.
    pub pending: Pending,
    /// Whether text or a child element yields the key [`INNER_VALUE`].
    pub inner_value: bool,
}

impl<D> MapState<D> {
    /// The cursor lies between the end of the name and the end of the tag.
    pub open spec fn wf(self) -> bool {
        &&& self.tag.wf()
        &&& self.tag.name_len <= self.position <= self.tag.buf.len()
    }

    /// The state of a new map: the cursor right behind the name, no key
    /// pending.
    pub open spec fn initial(tag: StartTag, decoder: D, inner_value: bool) -> MapState<D> {
        MapState { tag, decoder, position: tag.name_len as int, pending: Pending::Empty, inner_value }
    }

    /// What reading an attribute at the cursor finds.
    pub open spec fn found(self) -> Found {
        read_attr(self.tag.buf, self.position).found
    }

    /// The state after reading an attribute at the cursor.
    pub open spec fn after_attr(self) -> MapState<D> {
        MapState { position: read_attr(self.tag.buf, self.position).position, ..self }
    }

    /// What reading an attribute at the cursor returns: its name and value.
    pub open spec fn attr(self) -> Result<Option<(Seq<u8>, Seq<u8>)>, DeError> {
        match self.found() {
            Found::Attr { key_start, key_end, value_start, value_end } => Ok(
                Some(
                    (
                        self.tag.buf.subrange(key_start, key_end),
                        self.tag.buf.subrange(value_start, value_end),
                    ),
                ),
            ),
            Found::End => Ok(None),
            Found::NoEqAfterName(i) => Err(DeError::Xml(AttrError::NoEqAfterName(i as usize))),
            Found::UnquotedValue(i) => Err(DeError::Xml(AttrError::UnquotedValue(i as usize))),
        }
    }

    /// How far the attributes answer a key request.
    pub open spec fn key_step(self) -> Result<KeyStepView, DeError> {
        match self.attr() {
            Ok(Some((key, value))) => Ok(KeyStepView::Key(KeyView::Name(key))),
            Ok(None) => Ok(KeyStepView::Peek),
            Err(e) => Err(e),
        }
    }

    /// The state after the attributes were asked for a key: an attribute's
    /// value becomes pending.
    pub open spec fn after_key_step(self) -> MapState<D> {
        match self.attr() {
            Ok(Some((key, value))) => MapState { pending: Pending::Attribute(value), ..self.after_attr() },
            _ => self.after_attr(),
        }
    }

    /// The key that the peeked event `event` yields, if any: the reserved key
    /// for text or a child element where inner values are enabled, else the
    /// name of a child element.
    pub open spec fn event_key(self, event: Option<EventView>) -> Option<KeyView> {
        match event {
            Some(EventView::Text) => if self.inner_value {
                Some(KeyView::InnerValue)
            } else {
                None
            },
            Some(EventView::Start(tag)) => if self.inner_value {
                Some(KeyView::InnerValue)
            } else {
                Some(KeyView::Name(tag.name()))
            },
            _ => None,
        }
    }

    /// The state after the peeked event `event` was asked for a key.
    pub open spec fn after_event(self, event: Option<EventView>) -> MapState<D> {
        match self.event_key(event) {
            Some(KeyView::InnerValue) => MapState { pending: Pending::InnerValue, ..self },
            Some(KeyView::Name(_)) => MapState { pending: Pending::Nested, ..self },
            None => self,
        }
    }

    /// What a whole key request returns when the next event of the stream is
    /// `event`: the attributes come first, and the event is asked only when
    /// none is left.
    pub open spec fn key(self, event: Option<EventView>) -> Result<Option<KeyView>, DeError> {
        match self.key_step() {
            Ok(KeyStepView::Key(key)) => Ok(Some(key)),
            Ok(KeyStepView::Peek) => Ok(self.after_key_step().event_key(event)),
            Err(e) => Err(e),
        }
    }

    /// The state after a whole key request.
    pub open spec fn after_key(self, event: Option<EventView>) -> MapState<D> {
        match self.key_step() {
            Ok(KeyStepView::Peek) => self.after_key_step().after_event(event),
            _ => self.after_key_step(),
        }
    }

    /// What a value request returns.
    pub open spec fn value(self) -> Result<ValueView, DeError> {
        match self.pending {
            Pending::Empty => Err(DeError::EndOfAttributes),
            Pending::Attribute(value) => Ok(ValueView::Attribute(value)),
            Pending::Nested => Ok(ValueView::Stream),
            Pending::InnerValue => Ok(ValueView::Stream),
        }
    }

    /// The state after a value request: nothing is pending.
    pub open spec fn after_value(self) -> MapState<D> {
        MapState { pending: Pending::Empty, ..self }
    }
}

/// The content of the result of [`MapAccess::next_attr`].
pub open spec fn attr_view(r: Result<Option<Attribute>, DeError>) -> Result<
    Option<(Seq<u8>, Seq<u8>)>,
    DeError,
> {
    match r {
        Ok(Some(a)) => Ok(Some((a.key@, a.value@))),
        Ok(None) => Ok(None),
        Err(e) => Err(e),
    }
}

/// The content of the result of [`MapAccess::next_key`].
pub open spec fn key_step_view(r: Result<KeyStep, DeError>) -> Result<KeyStepView, DeError> {
    match r {
        Ok(step) => Ok(step@),
        Err(e) => Err(e),
    }
}

/// The content of the result of [`MapAccess::key_from_event`].
pub open spec fn key_view(r: Option<Key>) -> Option<KeyView> {
    match r {
        Some(key) => Some(key@),
        None => None,
    }
}

/// The content of the result of [`MapAccess::next_value`].
pub open spec fn value_view(r: Result<Value, DeError>) -> Result<ValueView, DeError> {
    match r {
        Ok(value) => Ok(value@),
        Err(e) => Err(e),
    }
}

/// The content of a peeked event.
pub open spec fn event_view(event: Option<&Event>) -> Option<EventView> {
    match event {
        Some(e) => Some(e@),
        None => None,
    }
}

/// A map over one start tag.
///
/// The driver asks for a key and for its value in turn. A key request is
/// answered by [`MapAccess::next_key`] as long as attributes are left, and by
/// [`MapAccess::key_from_event`] from the next event of the stream after that.
/// [`MapAccess::next_value`] says where the value of the last key is. The map
/// itself never consumes an event.
pub struct MapAccess<D> {
    start: BytesStart,
    decoder: D,
    position: usize,
    value: MapValue,
    inner_value: bool,
}

impl<D> View for MapAccess<D> {
    type V = MapState<D>;

    closed spec fn view(&self) -> MapState<D> {
        MapState {
            tag: self.start@,
            decoder: self.decoder,
            position: self.position as int,
            pending: self.value@,
            inner_value: self.inner_value,
        }
    }
}

impl<D> MapAccess<D> {
    #[verifier::type_invariant]
    spec fn inv(self) -> bool {
        self@.wf()
    }

    /// A map over `start` that decodes with `decoder`. With `inner_value`,
    /// text or a child element after the attributes yields the key
    /// [`INNER_VALUE`].
    pub fn new(start: BytesStart, decoder: D, inner_value: bool) -> (r: Result<MapAccess<D>, DeError>)
        ensures
            r matches Ok(map) && map@ == MapState::initial(start@, decoder, inner_value) && map@.wf(),
    {
        let position: usize = start.attributes().position;
        Ok(MapAccess { start, decoder, position, value: MapValue::Empty, inner_value })
    }

    /// The decoding context that the map was made with.
    pub fn decoder(&self) -> (r: &D)
        ensures
            *r == self@.decoder,
    {
        &self.decoder
    }

    /// Reads the next attribute of the tag and moves the cursor behind it.
    ///
    /// Returns `Ok(None)` when no attribute is left, and the syntax error when
    /// the bytes at the cursor are malformed.
    pub fn next_attr(&mut self) -> (r: Result<Option<Attribute>, DeError>)
        ensures
            old(self)@.wf(),
            final(self)@.wf(),
            final(self)@ == old(self)@.after_attr(),
            attr_view(r) == old(self)@.attr(),
    {
        proof {
            use_type_invariant(&*self);
            lemma_read_attr_bounds(self@.tag.buf, self@.position);
        }
        let mut attributes = self.start.attributes();
        attributes.position = self.position;
        let next_att = attributes.next();
        self.position = attributes.position;
        match next_att {
            Some(Ok(a)) => Ok(Some(a)),
            Some(Err(e)) => Err(DeError::Xml(e)),
            None => Ok(None),
        }
    }

    /// The first half of a key request: asks the attributes.
    ///
    /// While an attribute is left, its name is the key and its raw value
    /// becomes pending. When none is left the result is [`KeyStep::Peek`], and
    /// what is pending stays as it was. Malformed attributes are an error.
    pub fn next_key(&mut self) -> (r: Result<KeyStep, DeError>)
        ensures
            old(self)@.wf(),
            final(self)@.wf(),
            final(self)@ == old(self)@.after_key_step(),
            key_step_view(r) == old(self)@.key_step(),
    {
        match self.next_attr() {
            Ok(Some(a)) => {
                self.value = MapValue::Attribute { value: a.value };
                Ok(KeyStep::Key(Key::Name(a.key)))
            },
            Ok(None) => Ok(KeyStep::Peek),
            Err(e) => Err(e),
        }
    }

    /// The second half of a key request, for when no attribute is left: asks
    /// the next event of the stream, which the caller has peeked at and left
    /// in place. `None` stands for the end of the stream.
    ///
    /// Where inner values are enabled, text or the start tag of a child yields
    /// the key [`INNER_VALUE`]. Otherwise the start tag of a child yields the
    /// child's name. Any other event ends the map: the result is `None` and
    /// the state stays as it was.
    pub fn key_from_event(&mut self, event: Option<&Event>) -> (r: Option<Key>)
        ensures
            old(self)@.wf(),
            final(self)@.wf(),
            final(self)@ == old(self)@.after_event(event_view(event)),
            key_view(r) == old(self)@.event_key(event_view(event)),
    {
        proof {
            use_type_invariant(&*self);
        }
        match event {
            Some(Event::Text) => {
                if self.inner_value {
                    self.value = MapValue::InnerValue;
                    Some(Key::InnerValue)
                } else {
                    None
                }
            },
            Some(Event::Start(e)) => {
                if self.inner_value {
                    self.value = MapValue::InnerValue;
                    Some(Key::InnerValue)
                } else {
                    let name: Vec<u8> = slice_to_vec(e.name());
                    self.value = MapValue::Nested;
                    Some(Key::Name(name))
                }
            },
            _ => None,
        }
    }

    /// A value request: says where the value of the last key is, and leaves
    /// nothing pending.
    ///
    /// Fails with [`DeError::EndOfAttributes`] exactly when no key is pending,
    /// that is, when no key was produced since the map was made or since the
    /// last value request.
    pub fn next_value(&mut self) -> (r: Result<Value, DeError>)
        ensures
            old(self)@.wf(),
            final(self)@.wf(),
            final(self)@ == old(self)@.after_value(),
            value_view(r) == old(self)@.value(),
    {
        proof {
            use_type_invariant(&*self);
        }
        let mut taken = MapValue::Empty;
        std::mem::swap(&mut self.value, &mut taken);
        match taken {
            MapValue::Attribute { value } => Ok(Value::Attribute(value)),
            MapValue::Nested => Ok(Value::Stream),
            MapValue::InnerValue => Ok(Value::Stream),
            MapValue::Empty => Err(DeError::EndOfAttributes),
        }
    }
}

/// Whether `s` and `t` are states of a map over the same tag, with the same
/// decoding context and the same inner-value flag.
pub open spec fn same_map<D>(s: MapState<D>, t: MapState<D>) -> bool {
    s.tag == t.tag && s.decoder == t.decoder && s.inner_value == t.inner_value
}

/// Every request keeps the cursor between the end of the name and the end of
/// the tag, and none moves it backwards. The tag, the decoding context and the
/// inner-value flag never change.
pub proof fn lemma_requests_keep_wf<D>(s: MapState<D>, event: Option<EventView>)
    requires
        s.wf(),
    ensures
        s.after_attr().wf(),
        s.after_key_step().wf(),
        s.after_event(event).wf(),
        s.after_key(event).wf(),
        s.after_value().wf(),
        s.position <= s.after_attr().position == s.after_key_step().position == s.after_key(
            event,
        ).position,
        s.after_event(event).position == s.position == s.after_value().position,
        same_map(s, s.after_attr()),
        same_map(s, s.after_key_step()),
        same_map(s, s.after_event(event)),
        same_map(s, s.after_key(event)),
        same_map(s, s.after_value()),
{
    lemma_read_attr_bounds(s.tag.buf, s.position);
}

/// Attributes come first: as long as the attributes answer a key request,
/// with a key or with an error, the stream has no say in it.
pub proof fn lemma_attributes_come_first<D>(
    s: MapState<D>,
    event1: Option<EventView>,
    event2: Option<EventView>,
)
    requires
        s.key_step() != Ok::<KeyStepView, DeError>(KeyStepView::Peek),
    ensures
        s.key(event1) == s.key(event2),
        s.after_key(event1) == s.after_key(event2),
        s.key(event1) matches Ok(Some(key)) ==> s.attr() matches Ok(Some((k, v))) && key
            == KeyView::Name(k),
{
}

/// Attributes come in the order in which they are written: one that a key
/// request yields lies wholly behind the cursor, and the cursor then moves
/// behind it, so the next request yields one that is written after it.
pub proof fn lemma_attributes_in_order<D>(s: MapState<D>)
    requires
        s.wf(),
        s.found() is Attr,
    ensures
        s.position < s.found()->key_start < s.found()->value_end < s.after_key_step().position,
        s.after_key_step().found() matches Found::Attr { key_start, .. } ==> s.found()->value_end
            < key_start,
{
    lemma_read_attr_bounds(s.tag.buf, s.position);
    lemma_read_attr_bounds(s.tag.buf, s.after_key_step().position);
}

/// Every key has its value: right after a key request that produced a key, a
/// value request succeeds. After an attribute's name it yields that
/// attribute's raw value, after any other key the stream.
pub proof fn lemma_value_follows_key<D>(s: MapState<D>, event: Option<EventView>)
    requires
        s.key(event) matches Ok(Some(_)),
    ensures
        s.after_key(event).value() is Ok,
        s.attr() matches Ok(Some((k, v))) ==> s.key(event) == Ok::<Option<KeyView>, DeError>(
            Some(KeyView::Name(k)),
        ) && s.after_key(event).value() == Ok::<ValueView, DeError>(ValueView::Attribute(v)),
        s.attr() matches Ok(None) ==> s.after_key(event).value() == Ok::<ValueView, DeError>(
            ValueView::Stream,
        ),
{
}

/// A value is handed out once: whatever was pending, a second value request
/// in a row fails with [`DeError::EndOfAttributes`] and changes nothing.
pub proof fn lemma_value_is_single_use<D>(s: MapState<D>)
    ensures
        s.after_value().pending == Pending::Empty,
        s.after_value().value() == Err::<ValueView, DeError>(DeError::EndOfAttributes),
        s.after_value().after_value() == s.after_value(),
{
}

/// A new map has no key pending: a value request before any key request
/// fails with [`DeError::EndOfAttributes`].
pub proof fn lemma_no_value_before_key<D>(tag: StartTag, decoder: D, inner_value: bool)
    ensures
        MapState::initial(tag, decoder, inner_value).value() == Err::<ValueView, DeError>(
            DeError::EndOfAttributes,
        ),
        tag.wf() ==> MapState::initial(tag, decoder, inner_value).wf(),
{
}

/// Exhaustion is idempotent: once a key request has returned no key, the same
/// request, with the stream where it was, returns no key again and leaves the
/// whole state, the cursor included, as it is.
pub proof fn lemma_exhaustion_is_idempotent<D>(s: MapState<D>, event: Option<EventView>)
    requires
        s.wf(),
        s.key(event) == Ok::<Option<KeyView>, DeError>(None),
    ensures
        s.after_key(event).position == s.tag.buf.len(),
        s.after_key(event).pending == s.pending,
        s.after_key(event).key(event) == Ok::<Option<KeyView>, DeError>(None),
        s.after_key(event).after_key(event) == s.after_key(event),
{
    lemma_read_attr_bounds(s.tag.buf, s.position);
}

} // verus!
