//! Messages of D-Bus, as far as adapters read them.

use crate::json::{Json, JsonValue};
use crate::text;
use vstd::prelude::*;

verus! {

/// The contents of a message.
#[derive(Debug)]
pub enum BusBody {
    /// Properties of an interface have changed. The properties are an object.
    Changed { iface: String, changed: JsonValue, invalidated: Vec<String> },
    /// An object has got interfaces, each with its properties.
    Added { path: String, interfaces: JsonValue },
    /// An object has lost interfaces.
    Removed { path: String, lost: Vec<String> },
    /// The message names one object.
    Object { path: String },
    /// A job on a unit has ended.
    Job { unit: String },
    /// Anything else, and what cannot be read.
    Other,
}

/// What the contents of a message stand for.
pub enum BodyView {
    Changed(Seq<char>, Json, Seq<Seq<char>>),
    Added(Seq<char>, Json),
    Removed(Seq<char>, Seq<Seq<char>>),
    Object(Seq<char>),
    Job(Seq<char>),
    Other,
}

/// A message. Its sender may leave out the interface, the member or the path.
#[derive(Debug)]
pub struct BusMessage {
    pub interface: Option<String>,
    pub member: Option<String>,
    pub path: Option<String>,
    pub body: BusBody,
}

/// What a message stands for.
#[verifier::ext_equal]
pub struct BusView {
    pub interface: Option<Seq<char>>,
    pub member: Option<Seq<char>>,
    pub path: Option<Seq<char>>,
    pub body: BodyView,
}

impl DeepView for BusBody {
    type V = BodyView;

    open spec fn deep_view(&self) -> BodyView {
        match self {
            BusBody::Changed { iface, changed, invalidated } => BodyView::Changed(
                iface@,
                changed@,
                invalidated.deep_view(),
            ),
            BusBody::Added { path, interfaces } => BodyView::Added(path@, interfaces@),
            BusBody::Removed { path, lost } => BodyView::Removed(
                path@,
                lost.deep_view(),
            ),
            BusBody::Object { path } => BodyView::Object(path@),
            BusBody::Job { unit } => BodyView::Job(unit@),
            BusBody::Other => BodyView::Other,
        }
    }
}

impl DeepView for BusMessage {
    type V = BusView;

    open spec fn deep_view(&self) -> BusView {
        BusView {
            interface: self.interface.deep_view(),
            member: self.member.deep_view(),
            path: self.path.deep_view(),
            body: self.body.deep_view(),
        }
    }
}

impl BusView {
    /// The message is that member of that interface.
    pub open spec fn is(self, interface: Seq<char>, member: Seq<char>) -> bool {
        self.interface == Some(interface) && self.member == Some(member)
    }

    /// The path, or the empty text where there is none.
    pub open spec fn path_or_empty(self) -> Seq<char> {
        match self.path {
            Some(p) => p,
            None => ""@,
        }
    }
}

/// A text, or the empty one where there is none.
pub fn text_or_empty(s: &Option<String>) -> (r: String)
    ensures
        r@ == (match s.deep_view() {
            Some(s) => s,
            None => ""@,
        }),
{
    match s {
        Some(s) => s.clone(),
        None => "".to_owned(),
    }
}

impl BusMessage {
    /// Whether the message is that member of that interface.
    pub fn is_signal(&self, interface: &str, member: &str) -> (r: bool)
        ensures
            r == self.deep_view().is(interface@, member@),
    {
        match (&self.interface, &self.member) {
            (Some(i), Some(m)) => text::same(i.as_str(), interface) && text::same(
                m.as_str(),
                member,
            ),
            _ => false,
        }
    }

    /// The path, or the empty text where there is none.
    pub fn path_text(&self) -> (r: String)
        ensures
            r@ == self.deep_view().path_or_empty(),
    {
        text_or_empty(&self.path)
    }
}

/// A message is the signal of an interface if and only if it names both.
pub proof fn law_signals_name_interface_and_member(m: BusView, interface: Seq<char>,
    member: Seq<char>)
    ensures
        m.is(interface, member) <==> (m.interface matches Some(i) && i == interface)
            && (m.member matches Some(n) && n == member),
{
}

} // verus!
