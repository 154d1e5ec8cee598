//! Event sink adapter: serializes emitted values and hands them to the host.
use crate::errors::{Location, StatusCode, VMError};
use crate::language::TypeTag;
use crate::value::{serialize_value, value_fits, Value};
use vstd::prelude::*;

verus! {

/// The host's receiver of events.
pub trait EventHandler {
    /// Receives the event `seq_num` of stream `guid`, of type `ty_tag`, serialized as `message`.
    fn on_event(&self, guid: Vec<u8>, seq_num: u64, ty_tag: TypeTag, message: Vec<u8>);
}

/// An emitted event: stream id, sequence number, type and value.
pub type Event = (Vec<u8>, u64, TypeTag, Value);

/// Forwards events to the host's handler.
pub struct EventWriter<E> {
    handler: E,
}

impl<E: EventHandler> EventWriter<E> {
    pub fn new(handler: E) -> (r: EventWriter<E>)
        ensures
            r.handler() == handler,
    {
        EventWriter { handler }
    }

    /// The host's handler.
    pub closed spec fn handler(&self) -> E {
        self.handler
    }

    /// Serializes the event's value and hands the event to the host; a value that cannot be
    /// serialized (a vector too long for the serializer) is an invariant violation and reaches
    /// the host not at all.
    pub fn write_event(&self, event: Event) -> (r: Result<(), VMError>)
        ensures
            r is Ok <==> value_fits(event.3),
            r matches Err(e) ==> e.major_status == StatusCode::UnknownInvariantViolationError
                && e.location == Location::Undefined,
    {
        let (guid, seq_num, tag, value) = event;
        match serialize_value(&value) {
            Some(msg) => {
                self.handler.on_event(guid, seq_num, tag, msg);
                Ok(())
            },
            None => Err(VMError::new(StatusCode::UnknownInvariantViolationError)),
        }
    }
}

} // verus!
