//! An event whose texts are borrowed.

use vstd::prelude::*;
use vstd::string::*;
use crate::correlation::{fresh_id, is_random_id};

verus! {

/// An event that borrows its action and its payload, and that can note the
/// time at which the broker took it in.
#[derive(Debug, PartialEq)]
pub struct ServiceEvent<'a> {
    request_uuid: u128,
    timestamp: Option<u64>,
    timeout: u16,
    action: &'a str,
    payload: Option<&'a str>,
}

pub struct ServiceEventView {
    pub request_uuid: u128,
    pub timestamp: Option<u64>,
    pub timeout: u16,
    pub action: Seq<char>,
    pub payload: Option<Seq<char>>,
}

impl ServiceEventView {
    /// The event that owns the same texts, and bears no timestamp.
    pub open spec fn owned(self) -> crate::event_queue::service_event::ServiceEventView {
        crate::event_queue::service_event::ServiceEventView {
            request_uuid: self.request_uuid,
            timeout: self.timeout,
            action: self.action,
            payload: self.payload,
        }
    }
}

/// The view of an optional borrowed text.
pub open spec fn borrowed_view(text: Option<&str>) -> Option<Seq<char>> {
    match text {
        Some(t) => Some(t@),
        None => None,
    }
}

impl<'a> View for ServiceEvent<'a> {
    type V = ServiceEventView;

    closed spec fn view(&self) -> ServiceEventView {
        ServiceEventView {
            request_uuid: self.request_uuid,
            timestamp: self.timestamp,
            timeout: self.timeout,
            action: self.action@,
            payload: borrowed_view(self.payload),
        }
    }
}

impl<'a> ServiceEvent<'a> {
    #[verifier::type_invariant]
    closed spec fn timeout_is_set(self) -> bool {
        self.timeout != 0
    }

    /// Create an event with a chosen uuid and no timestamp.
    pub fn with_uuid(
        request_uuid: u128,
        timeout: u16,
        action: &'a str,
        payload: Option<&'a str>,
    ) -> (event: Self)
        requires
            timeout != 0,
        ensures
            event@ == (ServiceEventView {
                request_uuid,
                timestamp: None,
                timeout,
                action: action@,
                payload: borrowed_view(payload),
            }),
    {
        ServiceEvent { request_uuid, timestamp: None, timeout, action, payload }
    }

    /// Create an event with a freshly drawn uuid and no timestamp.
    pub fn new(timeout: u16, action: &'a str, payload: Option<&'a str>) -> (event: Self)
        requires
            timeout != 0,
        ensures
            is_random_id(event@.request_uuid),
            event@ == (ServiceEventView {
                request_uuid: event@.request_uuid,
                timestamp: None,
                timeout,
                action: action@,
                payload: borrowed_view(payload),
            }),
    {
        let request_uuid: u128 = fresh_id();
        Self::with_uuid(request_uuid, timeout, action, payload)
    }

    /// The event that owns the same texts, and bears no timestamp.
    pub fn to_owned_event(&self) -> (owned: crate::event_queue::service_event::ServiceEvent)
        ensures
            owned@ == self@.owned(),
    {
        proof {
            use_type_invariant(self);
        }
        let payload = match self.payload {
            Some(text) => Some(String::from_str(text)),
            None => None,
        };
        crate::event_queue::service_event::ServiceEvent::with_uuid(
            self.request_uuid,
            self.timeout,
            self.action,
            payload,
        )
    }

    pub fn set_uuid(&mut self, request_uuid: u128)
        ensures
            final(self)@ == (ServiceEventView { request_uuid, ..old(self)@ }),
    {
        proof {
            use_type_invariant(&*self);
        }
        self.request_uuid = request_uuid
    }

    pub fn get_uuid(&self) -> (uuid: u128)
        ensures
            uuid == self@.request_uuid,
    {
        self.request_uuid
    }

    /// Notes the time at which the broker took the event in. An event takes
    /// a timestamp once: the second one is refused, and the first one stays.
    pub fn set_timestamp(&mut self, timestamp: u64) -> (result: Result<(), &str>)
        ensures
            old(self)@.timestamp is None ==> result is Ok && final(self)@ == (ServiceEventView {
                timestamp: Some(timestamp),
                ..old(self)@
            }),
            old(self)@.timestamp is Some ==> result is Err && result->Err_0@
                == "can set event timestamp only once"@ && final(self)@ == old(self)@,
    {
        proof {
            use_type_invariant(&*self);
        }
        if let Some(_) = self.timestamp {
            return Err("can set event timestamp only once");
        }
        self.timestamp = Some(timestamp);

        Ok(())
    }

    pub fn get_timestamp(&self) -> (timestamp: Option<u64>)
        ensures
            timestamp == self@.timestamp,
    {
        self.timestamp
    }

    pub fn get_timeout(&self) -> (timeout: u16)
        ensures
            timeout == self@.timeout,
            timeout != 0,
    {
        proof {
            use_type_invariant(self);
        }
        self.timeout
    }

    pub fn get_action(&self) -> (action: &'a str)
        ensures
            action@ == self@.action,
    {
        self.action
    }

    pub fn get_payload(&self) -> (payload: Option<&'a str>)
        ensures
            borrowed_view(payload) == self@.payload,
    {
        self.payload
    }
}

} // verus!
