//! The document tree produced by parsing, its mathematical model, and the
//! error value that a failed parse returns.
//!
//! Every executable type here has a spec-level mirror (`Spec*`) built from
//! `Seq` and mathematical integers; the view functions below relate the two.

use vstd::prelude::*;

verus! {

// ---------------------------------------------------------------------------
// Executable types
// ---------------------------------------------------------------------------

/// A 128-bit identifier decoded from a 32-hex-character literal.
#[derive(Debug, PartialEq, Eq, Clone, Copy, Structural)]
pub struct Uuid {
    pub value: u128,
}

/// A structure that holds node pins and other connection destination information.
#[derive(Debug, PartialEq, Clone)]
pub struct LinkedTo {
    pub name: String,
    pub uuid: Uuid,
}

/// A fractional literal, kept as the exact pieces read from the text: the
/// sign, the magnitude of the integer part, and the fractional digits in
/// source order (each stored as its numeric value, 0 through 9).
///
/// The numeric value it denotes is
/// `(if negative { -1 } else { 1 }) * (int_abs + sum of frac[i] / 10^(i+1))`.
#[derive(Debug, PartialEq, Clone)]
pub struct DoubleLit {
    pub negative: bool,
    pub int_abs: u64,
    pub frac: Vec<u8>,
}

/// An enumerated type that holds basic property values.
#[derive(Debug, PartialEq)]
pub enum PropValue {
    String(String),
    Integer(i64),
    Double(DoubleLit),
    Boolean(bool),
    Uuid(Uuid),
    NslocText(String, String, String),
    ObjectReference(String, String),
    LinkedToList(Vec<LinkedTo>),
    PropList(Vec<Prop>),
}

/// A structure that represents the basic key / value properties.
#[derive(Debug, PartialEq)]
pub struct Prop {
    pub key: String,
    pub value: PropValue,
}

/// The payload of a custom property, one variant per supported domain.
#[derive(Debug, PartialEq)]
pub enum CustomPropValue {
    Pin(Vec<Prop>),
}

/// A structure of custom properties held by an object.
#[derive(Debug, PartialEq)]
pub struct CustomProp {
    pub domain: String,
    pub value: CustomPropValue,
}

/// An enumerated type that indicates the internal elements of an object.
/// The `Object` variant is a recognized extension point for nested blocks;
/// the grammar as scoped never produces it.
#[derive(Debug, PartialEq)]
pub enum ObjectElement {
    Prop(Prop),
    CustomProp(CustomProp),
    Object(Object),
}

/// A structure that represents an object header.
#[derive(Debug, PartialEq)]
pub struct ObjectHeader {
    pub object_type: String,
    pub header_props: Vec<Prop>,
}

/// A structure that represents an object.
#[derive(Debug, PartialEq)]
pub struct Object {
    pub header: ObjectHeader,
    pub elements: Vec<ObjectElement>,
}

/// A structure that represents an object end.
#[derive(Debug, PartialEq, Clone)]
pub struct ObjectEnd {
    pub object_type: String,
}

/// A structure that represents the ordered sequence of parsed objects.
#[derive(Debug, PartialEq)]
pub struct Objects(pub Vec<Object>);

/// What a parser returns: the position just past the consumed text and the
/// decoded value, or the error describing why the rule did not match.
pub type ParseResult<T> = Result<(usize, T), ParseError>;

/// The error a failed parse returns: the trail of grammar rules that were
/// being parsed when the failure happened, innermost first.
#[derive(Debug, Clone)]
pub struct ParseError {
    pub trail: Vec<String>,
}

/// The rendered form of a context trail: each rule, outermost first,
/// introduced by `while parsing ` and separated by `: `.
pub open spec fn render_trail(t: Seq<String>) -> Seq<char>
    decreases t.len(),
{
    if t.len() == 0 {
        Seq::empty()
    } else if t.len() == 1 {
        "while parsing "@ + t[0]@
    } else {
        "while parsing "@ + t[t.len() - 1]@ + ": "@ + render_trail(t.subrange(0, t.len() - 1))
    }
}

impl ParseError {
    /// A fresh failure inside the named grammar rule.
    pub fn at(rule: &str) -> (r: ParseError)
        ensures
            r.trail@.len() == 1,
            r.trail@[0]@ == rule@,
    {
        ParseError { trail: vec![String::from_str(rule)] }
    }

    /// The same failure, recorded as having happened while parsing the
    /// named enclosing rule: the trail so far is kept, the rule is added
    /// as its new outermost entry.
    pub fn within(self, rule: &str) -> (r: ParseError)
        ensures
            r.trail@.len() == self.trail@.len() + 1,
            r.trail@[self.trail@.len() as int]@ == rule@,
            forall|i: int| 0 <= i < self.trail@.len() ==> r.trail@[i] == self.trail@[i],
    {
        let mut t = self.trail;
        t.push(String::from_str(rule));
        ParseError { trail: t }
    }

    /// A human-readable rendering of the contextual trail, outermost rule
    /// first.
    pub fn message(&self) -> (r: String)
        ensures
            r@ == render_trail(self.trail@),
    {
        let mut out = String::new();
        let mut i: usize = self.trail.len();
        proof {
            assert(self.trail@.subrange(0, i as int) =~= self.trail@);
            assert(out@ + render_trail(self.trail@) =~= render_trail(self.trail@));
        }
        while i > 0
            invariant
                i <= self.trail.len(),
                render_trail(self.trail@) == out@ + render_trail(
                    self.trail@.subrange(0, i as int),
                ),
            decreases i,
        {
            let ghost oldout = out@;
            let ghost u = self.trail@.subrange(0, i as int);
            i = i - 1;
            out.append("while parsing ");
            out.append(self.trail[i].as_str());
            if i > 0 {
                out.append(": ");
            }
            proof {
                assert(u[u.len() - 1] == self.trail@[i as int]);
                if i == 0 {
                    assert(render_trail(u) == "while parsing "@ + self.trail@[i as int]@);
                    assert(oldout + render_trail(u) =~= out@);
                    assert(render_trail(self.trail@.subrange(0, 0)) =~= Seq::<char>::empty());
                    assert(out@ + Seq::<char>::empty() =~= out@);
                } else {
                    assert(u.subrange(0, u.len() - 1) =~= self.trail@.subrange(0, i as int));
                    assert(render_trail(u) == "while parsing "@ + self.trail@[i as int]@ + ": "@
                        + render_trail(self.trail@.subrange(0, i as int)));
                    assert(oldout + ("while parsing "@ + self.trail@[i as int]@ + ": "@
                        + render_trail(self.trail@.subrange(0, i as int))) =~= out@
                        + render_trail(self.trail@.subrange(0, i as int)));
                }
            }
        }
        proof {
            assert(render_trail(self.trail@.subrange(0, 0)) =~= Seq::<char>::empty());
            assert(out@ + Seq::<char>::empty() =~= out@);
        }
        out
    }
}

// ---------------------------------------------------------------------------
// Spec-level mirrors
// ---------------------------------------------------------------------------

/// Mathematical form of a fractional literal.
pub struct SpecDouble {
    pub negative: bool,
    pub int_abs: int,
    pub frac: Seq<u8>,
}

/// Mathematical form of a `LinkedTo`.
pub struct SpecLinkedTo {
    pub name: Seq<char>,
    pub uuid: u128,
}

/// Mathematical form of a `PropValue`.
pub enum SpecPropValue {
    String(Seq<char>),
    Integer(i64),
    Double(SpecDouble),
    Boolean(bool),
    Uuid(u128),
    NslocText(Seq<char>, Seq<char>, Seq<char>),
    ObjectReference(Seq<char>, Seq<char>),
    LinkedToList(Seq<SpecLinkedTo>),
    PropList(Seq<SpecProp>),
}

/// Mathematical form of a `Prop`.
pub struct SpecProp {
    pub key: Seq<char>,
    pub value: SpecPropValue,
}

/// Mathematical form of a `CustomPropValue`.
pub enum SpecCustomPropValue {
    Pin(Seq<SpecProp>),
}

/// Mathematical form of a `CustomProp`.
pub struct SpecCustomProp {
    pub domain: Seq<char>,
    pub value: SpecCustomPropValue,
}

/// Mathematical form of an `ObjectElement`.
pub enum SpecObjectElement {
    Prop(SpecProp),
    CustomProp(SpecCustomProp),
    Object(SpecObject),
}

/// Mathematical form of an `ObjectHeader`.
pub struct SpecObjectHeader {
    pub object_type: Seq<char>,
    pub header_props: Seq<SpecProp>,
}

/// Mathematical form of an `Object`.
pub struct SpecObject {
    pub header: SpecObjectHeader,
    pub elements: Seq<SpecObjectElement>,
}

/// Mathematical form of an `ObjectEnd`.
pub struct SpecObjectEnd {
    pub object_type: Seq<char>,
}

// ---------------------------------------------------------------------------
// View functions
// ---------------------------------------------------------------------------

pub open spec fn view_double(d: DoubleLit) -> SpecDouble {
    SpecDouble { negative: d.negative, int_abs: d.int_abs as int, frac: d.frac@ }
}

pub open spec fn view_linked(l: LinkedTo) -> SpecLinkedTo {
    SpecLinkedTo { name: l.name@, uuid: l.uuid.value }
}

pub open spec fn view_linkeds(s: Seq<LinkedTo>) -> Seq<SpecLinkedTo>
    decreases s.len(),
{
    if s.len() == 0 {
        Seq::empty()
    } else {
        view_linkeds(s.subrange(0, s.len() - 1)).push(view_linked(s[s.len() - 1]))
    }
}

pub open spec fn view_prop_value(v: PropValue) -> SpecPropValue
    decreases v,
{
    match v {
        PropValue::String(s) => SpecPropValue::String(s@),
        PropValue::Integer(i) => SpecPropValue::Integer(i),
        PropValue::Double(d) => SpecPropValue::Double(view_double(d)),
        PropValue::Boolean(b) => SpecPropValue::Boolean(b),
        PropValue::Uuid(u) => SpecPropValue::Uuid(u.value),
        PropValue::NslocText(a, b, c) => SpecPropValue::NslocText(a@, b@, c@),
        PropValue::ObjectReference(a, b) => SpecPropValue::ObjectReference(a@, b@),
        PropValue::LinkedToList(l) => SpecPropValue::LinkedToList(view_linkeds(l@)),
        PropValue::PropList(ps) => SpecPropValue::PropList(view_props(ps@)),
    }
}

pub open spec fn view_prop(p: Prop) -> SpecProp
    decreases p,
{
    SpecProp { key: p.key@, value: view_prop_value(p.value) }
}

pub open spec fn view_props(s: Seq<Prop>) -> Seq<SpecProp>
    decreases s,
{
    if s.len() == 0 {
        Seq::empty()
    } else {
        view_props(s.subrange(0, s.len() - 1)).push(view_prop(s[s.len() - 1]))
    }
}

pub open spec fn view_custom(c: CustomProp) -> SpecCustomProp {
    SpecCustomProp {
        domain: c.domain@,
        value: match c.value {
            CustomPropValue::Pin(ps) => SpecCustomPropValue::Pin(view_props(ps@)),
        },
    }
}

pub open spec fn view_header(h: ObjectHeader) -> SpecObjectHeader {
    SpecObjectHeader { object_type: h.object_type@, header_props: view_props(h.header_props@) }
}

pub open spec fn view_element(e: ObjectElement) -> SpecObjectElement
    decreases e,
{
    match e {
        ObjectElement::Prop(p) => SpecObjectElement::Prop(view_prop(p)),
        ObjectElement::CustomProp(c) => SpecObjectElement::CustomProp(view_custom(c)),
        ObjectElement::Object(o) => SpecObjectElement::Object(view_object(o)),
    }
}

pub open spec fn view_elements(s: Seq<ObjectElement>) -> Seq<SpecObjectElement>
    decreases s,
{
    if s.len() == 0 {
        Seq::empty()
    } else {
        view_elements(s.subrange(0, s.len() - 1)).push(view_element(s[s.len() - 1]))
    }
}

pub open spec fn view_object(o: Object) -> SpecObject
    decreases o,
{
    SpecObject { header: view_header(o.header), elements: view_elements(o.elements@) }
}

pub open spec fn view_objects(s: Seq<Object>) -> Seq<SpecObject>
    decreases s,
{
    if s.len() == 0 {
        Seq::empty()
    } else {
        view_objects(s.subrange(0, s.len() - 1)).push(view_object(s[s.len() - 1]))
    }
}

impl View for Uuid {
    type V = u128;

    open spec fn view(&self) -> u128 {
        self.value
    }
}

impl View for DoubleLit {
    type V = SpecDouble;

    open spec fn view(&self) -> SpecDouble {
        view_double(*self)
    }
}

impl View for LinkedTo {
    type V = SpecLinkedTo;

    open spec fn view(&self) -> SpecLinkedTo {
        view_linked(*self)
    }
}

impl View for PropValue {
    type V = SpecPropValue;

    open spec fn view(&self) -> SpecPropValue {
        view_prop_value(*self)
    }
}

impl View for Prop {
    type V = SpecProp;

    open spec fn view(&self) -> SpecProp {
        view_prop(*self)
    }
}

impl View for CustomProp {
    type V = SpecCustomProp;

    open spec fn view(&self) -> SpecCustomProp {
        view_custom(*self)
    }
}

impl View for ObjectElement {
    type V = SpecObjectElement;

    open spec fn view(&self) -> SpecObjectElement {
        view_element(*self)
    }
}

impl View for ObjectHeader {
    type V = SpecObjectHeader;

    open spec fn view(&self) -> SpecObjectHeader {
        view_header(*self)
    }
}

impl View for Object {
    type V = SpecObject;

    open spec fn view(&self) -> SpecObject {
        view_object(*self)
    }
}

impl View for ObjectEnd {
    type V = SpecObjectEnd;

    open spec fn view(&self) -> SpecObjectEnd {
        SpecObjectEnd { object_type: self.object_type@ }
    }
}

impl View for Objects {
    type V = Seq<SpecObject>;

    open spec fn view(&self) -> Seq<SpecObject> {
        view_objects(self.0@)
    }
}

// ---------------------------------------------------------------------------
// Small view lemmas used by the parser loops
// ---------------------------------------------------------------------------

pub broadcast proof fn lemma_view_props_push(s: Seq<Prop>, p: Prop)
    ensures
        #[trigger] view_props(s.push(p)) == view_props(s).push(view_prop(p)),
{
    let t = s.push(p);
    assert(t.subrange(0, t.len() - 1) =~= s);
    assert(t[t.len() - 1] == p);
}

pub broadcast proof fn lemma_view_linkeds_push(s: Seq<LinkedTo>, l: LinkedTo)
    ensures
        #[trigger] view_linkeds(s.push(l)) == view_linkeds(s).push(view_linked(l)),
{
    let t = s.push(l);
    assert(t.subrange(0, t.len() - 1) =~= s);
    assert(t[t.len() - 1] == l);
}

pub broadcast proof fn lemma_view_elements_push(s: Seq<ObjectElement>, e: ObjectElement)
    ensures
        #[trigger] view_elements(s.push(e)) == view_elements(s).push(view_element(e)),
{
    let t = s.push(e);
    assert(t.subrange(0, t.len() - 1) =~= s);
    assert(t[t.len() - 1] == e);
}

pub broadcast proof fn lemma_view_objects_push(s: Seq<Object>, o: Object)
    ensures
        #[trigger] view_objects(s.push(o)) == view_objects(s).push(view_object(o)),
{
    let t = s.push(o);
    assert(t.subrange(0, t.len() - 1) =~= s);
    assert(t[t.len() - 1] == o);
}

} // verus!
