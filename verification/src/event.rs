//! Server events as the client sees them; the wire discriminator field is
//! `"_et"`.

use vstd::prelude::*;

verus! {

/// Outcome of a registration request, as reported to the client.
#[derive(Debug, Clone)]
pub struct RegisterResponseEvent {
    pub success: bool,
    pub message: String,
}

/// An inbound server event.
#[derive(Debug, Clone)]
pub enum Event {
    RegisterResponse(RegisterResponseEvent),
}

/// Mathematical view of an `Event`.
#[verifier::ext_equal]
pub enum EventView {
    RegisterResponse { success: bool, message: Seq<char> },
}

impl View for Event {
    type V = EventView;

    open spec fn view(&self) -> EventView {
        match self {
            Event::RegisterResponse(e) => EventView::RegisterResponse {
                success: e.success,
                message: e.message@,
            },
        }
    }
}

impl PartialEq for RegisterResponseEvent {
    fn eq(&self, other: &Self) -> bool {
        self.success == other.success && self.message == other.message
    }
}

impl vstd::std_specs::cmp::PartialEqSpecImpl for RegisterResponseEvent {
    open spec fn obeys_eq_spec() -> bool {
        true
    }

    open spec fn eq_spec(&self, other: &Self) -> bool {
        self.success == other.success && self.message@ == other.message@
    }
}

impl PartialEq for Event {
    fn eq(&self, other: &Self) -> bool {
        match (self, other) {
            (Event::RegisterResponse(a), Event::RegisterResponse(b)) => a == b,
        }
    }
}

impl vstd::std_specs::cmp::PartialEqSpecImpl for Event {
    open spec fn obeys_eq_spec() -> bool {
        true
    }

    open spec fn eq_spec(&self, other: &Self) -> bool {
        self@ == other@
    }
}

} // verus!
