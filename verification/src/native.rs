//! The facts about events that the operating system supplies, as plain values.
//!
//! Event records come from the trace session, event information from the Trace Data Helper (TDH),
//! and SID texts from the security descriptor API. The library decides over these values; who asks
//! the operating system for them is the caller.

use vstd::prelude::*;

verus! {

/// A globally unique identifier, as its 128-bit number.
pub type GUID = u128;

/// An event, as it was delivered to the callback of a trace.
#[derive(Debug)]
pub struct EventRecord {
    /// The provider that emitted the event.
    pub provider_id: GUID,
    /// The event ID of the ETW header.
    pub event_id: u16,
    /// The version of the event.
    pub version: u8,
    /// The opcode of the event.
    pub opcode: u8,
    /// The level of the event.
    pub level: u8,
    /// The name of the event, for events that describe themselves.
    pub event_name: String,
    /// The `UserData` bytes of the event.
    pub user_buffer: Vec<u8>,
}

/// Why the Trace Data Helper could not answer.
#[derive(Debug)]
pub struct TdhNativeError {
    /// The text of the error.
    pub text: String,
}

/// Why a SID could not be converted to text.
#[derive(Debug)]
pub struct SddlNativeError {
    /// The text of the error.
    pub text: String,
}

/// The source of the information that an event is decoded with, as `DECODING_SOURCE` numbers it.
#[derive(Debug, Clone, Copy, PartialEq, Eq, Structural)]
pub struct DecodingSource(pub i32);

/// Why a property of an event cannot be described.
#[derive(Debug, Clone, Copy)]
pub enum PropertyError {
    /// The property has a type that is not implemented.
    UnimplementedType(&'static str),
}

/// A property of an event.
#[derive(Debug)]
pub struct Property {
    /// The name of the property.
    pub name: String,
    /// The property flags.
    pub flags: u32,
    /// The TDH input type.
    pub in_type: u16,
    /// The TDH output type.
    pub out_type: u16,
    /// The length of the property.
    pub length: u16,
    /// The number of elements of the property.
    pub count: u16,
}

impl Clone for Property {
    fn clone(&self) -> (copy: Self)
        ensures
            copy == *self,
    {
        Property {
            name: self.name.clone(),
            flags: self.flags,
            in_type: self.in_type,
            out_type: self.out_type,
            length: self.length,
            count: self.count,
        }
    }
}

/// What the Trace Data Helper knows about an event.
#[derive(Debug)]
pub struct TraceEventInfo {
    /// The provider of the event.
    pub provider_guid: GUID,
    /// The event ID.
    pub event_id: u16,
    /// The version of the event.
    pub event_version: u8,
    /// The source that the event is decoded with.
    pub decoding_source: DecodingSource,
    /// The name of the provider.
    pub provider_name: String,
    /// The name of the task.
    pub task_name: String,
    /// The name of the opcode.
    pub opcode_name: String,
    /// The name of the channel.
    pub channel_name: String,
    /// The message template of the event.
    pub event_message: String,
    /// The properties of the event in order, with an error in place of each that cannot be described.
    pub properties: Vec<Result<Property, PropertyError>>,
}

} // verus!
