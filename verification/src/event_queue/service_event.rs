//! The message envelope that services exchange.

use vstd::prelude::*;
use vstd::string::*;
use crate::correlation::{fresh_id, is_random_id};

verus! {

/// A ServiceEvent carries what one service tells another.
///
/// - the `request_uuid` identifies the exchange; a response carries the uuid
///   of the request that it answers
/// - the `timeout` is given in seconds and is never zero
/// - the `action` is an arbitrary string
/// - the `payload` is data in a format that the services agree upon
#[derive(Debug, PartialEq, Eq)]
pub struct ServiceEvent {
    request_uuid: u128,
    timeout: u16,
    action: String,
    payload: Option<String>,
}

/// What a `ServiceEvent` holds, as mathematical values.
pub struct ServiceEventView {
    pub request_uuid: u128,
    pub timeout: u16,
    pub action: Seq<char>,
    pub payload: Option<Seq<char>>,
}

/// The view of an optional text.
pub open spec fn text_view(text: Option<String>) -> Option<Seq<char>> {
    match text {
        Some(t) => Some(t@),
        None => None,
    }
}

impl View for ServiceEvent {
    type V = ServiceEventView;

    closed spec fn view(&self) -> ServiceEventView {
        ServiceEventView {
            request_uuid: self.request_uuid,
            timeout: self.timeout,
            action: self.action@,
            payload: text_view(self.payload),
        }
    }
}

impl Clone for ServiceEvent {
    fn clone(&self) -> (copy: Self)
        ensures
            copy@ == self@,
    {
        let payload = match &self.payload {
            Some(text) => Some(text.clone()),
            None => None,
        };
        proof {
            use_type_invariant(self);
        }
        ServiceEvent {
            request_uuid: self.request_uuid,
            timeout: self.timeout,
            action: self.action.clone(),
            payload,
        }
    }
}

impl ServiceEvent {
    #[verifier::type_invariant]
    closed spec fn timeout_is_set(self) -> bool {
        self.timeout != 0
    }

    /// Create a service event with a chosen uuid.
    pub fn with_uuid(
        request_uuid: u128,
        timeout: u16,
        action: &str,
        payload: Option<String>,
    ) -> (event: Self)
        requires
            timeout != 0,
        ensures
            event@ == (ServiceEventView {
                request_uuid,
                timeout,
                action: action@,
                payload: text_view(payload),
            }),
    {
        ServiceEvent { request_uuid, timeout, action: String::from_str(action), payload }
    }

    /// Create a service event
    ///
    /// A new event gets a freshly drawn uuid.
    /// - `timeout` must be non-zero, timeout is specified in seconds
    /// - `action` is an arbitrary string meaningful to consumers
    /// - `payload` is serialized data in a common format such as JSON
    pub fn new(timeout: u16, action: &str, payload: Option<String>) -> (event: Self)
        requires
            timeout != 0,
        ensures
            is_random_id(event@.request_uuid),
            event@ == (ServiceEventView {
                request_uuid: event@.request_uuid,
                timeout,
                action: action@,
                payload: text_view(payload),
            }),
    {
        let request_uuid: u128 = fresh_id();
        Self::with_uuid(request_uuid, timeout, action, payload)
    }

    /// Create a service event as response to another event
    ///
    /// A response takes over the uuid and the timeout of the event that it
    /// answers, and has an action and a payload of its own.
    pub fn new_response(event: &ServiceEvent, action: &str, payload: Option<String>) -> (response:
        Self)
        ensures
            response@ == (ServiceEventView {
                request_uuid: event@.request_uuid,
                timeout: event@.timeout,
                action: action@,
                payload: text_view(payload),
            }),
    {
        proof {
            use_type_invariant(event);
        }
        Self::with_uuid(event.request_uuid, event.timeout, action, payload)
    }

    pub fn get_uuid(&self) -> (uuid: u128)
        ensures
            uuid == self@.request_uuid,
    {
        self.request_uuid
    }

    pub fn get_timeout(&self) -> (timeout: u16)
        ensures
            timeout == self@.timeout,
            timeout != 0,
    {
        proof {
            use_type_invariant(self);
        }
        self.timeout
    }

    pub fn get_action(&self) -> (action: &str)
        ensures
            action@ == self@.action,
    {
        self.action.as_str()
    }

    /// The payload, lent out.
    pub fn borrow_payload(&self) -> (payload: Option<&str>)
        ensures
            match payload {
                Some(text) => self@.payload == Some(text@),
                None => self@.payload is None,
            },
    {
        match &self.payload {
            Some(text) => Some(text.as_str()),
            None => None,
        }
    }

    pub fn get_payload(&self) -> (payload: Option<String>)
        ensures
            text_view(payload) == self@.payload,
    {
        match &self.payload {
            Some(text) => Some(text.clone()),
            None => None,
        }
    }
}

} // verus!
