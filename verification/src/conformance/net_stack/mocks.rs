//! A mock profile: it expects a given series of sends, and answers each with a
//! given result.
use vstd::prelude::*;

use std::collections::VecDeque;

use crate::interface_manager::InterfaceSendError;
use crate::{Header, ProtocolError};

verus! {

/// An expected send of a message, and the result to answer it with.
pub struct ExpectedSend {
    pub hdr: Header,
    pub data: Vec<u8>,
    pub retval: Result<(), InterfaceSendError>,
}

/// An expected send of a protocol error, and the result to answer it with.
pub struct ExpectedSendErr {
    pub hdr: Header,
    pub err: ProtocolError,
    pub retval: Result<(), InterfaceSendError>,
}

/// An expected send of a pre-serialized message, and the result to answer it with.
pub struct ExpectedSendRaw {
    pub hdr: Header,
    pub hdr_raw: Vec<u8>,
    pub body: Vec<u8>,
    pub retval: Result<(), InterfaceSendError>,
}

/// A profile that expects a series of sends of each kind, in order.
pub struct MockProfile {
    pub expected_sends: VecDeque<ExpectedSend>,
    pub expected_send_errs: VecDeque<ExpectedSendErr>,
    pub expected_send_raws: VecDeque<ExpectedSendRaw>,
}

impl MockProfile {
    /// A mock that expects nothing.
    pub fn new() -> (r: Self)
        ensures
            r.expected_sends@.len() == 0,
            r.expected_send_errs@.len() == 0,
            r.expected_send_raws@.len() == 0,
    {
        MockProfile {
            expected_sends: VecDeque::new(),
            expected_send_errs: VecDeque::new(),
            expected_send_raws: VecDeque::new(),
        }
    }

    /// Expect one more send of a message, after those expected already.
    pub fn add_exp_send(&mut self, exp: ExpectedSend)
        ensures
            final(self).expected_sends@ == old(self).expected_sends@.push(exp),
            final(self).expected_send_errs@ == old(self).expected_send_errs@,
            final(self).expected_send_raws@ == old(self).expected_send_raws@,
    {
        self.expected_sends.push_back(exp);
    }

    /// Expect one more send of a protocol error, after those expected already.
    pub fn add_exp_send_err(&mut self, exp: ExpectedSendErr)
        ensures
            final(self).expected_sends@ == old(self).expected_sends@,
            final(self).expected_send_errs@ == old(self).expected_send_errs@.push(exp),
            final(self).expected_send_raws@ == old(self).expected_send_raws@,
    {
        self.expected_send_errs.push_back(exp);
    }

    /// Expect one more send of a pre-serialized message, after those expected
    /// already.
    pub fn add_exp_send_raw(&mut self, exp: ExpectedSendRaw)
        ensures
            final(self).expected_sends@ == old(self).expected_sends@,
            final(self).expected_send_errs@ == old(self).expected_send_errs@,
            final(self).expected_send_raws@ == old(self).expected_send_raws@.push(exp),
    {
        self.expected_send_raws.push_back(exp);
    }

    /// Whether every expected send has happened.
    pub fn all_empty(&self) -> (r: bool)
        ensures
            r == (self.expected_sends@.len() == 0 && self.expected_send_errs@.len() == 0
                && self.expected_send_raws@.len() == 0),
    {
        self.expected_sends.len() == 0 && self.expected_send_errs.len() == 0
            && self.expected_send_raws.len() == 0
    }

    /// Check that every expected send has happened.
    pub fn assert_all_empty(&self)
        requires
            self.expected_sends@.len() == 0,
            self.expected_send_errs@.len() == 0,
            self.expected_send_raws@.len() == 0,
    {
    }

    /// Take a send of a message with this header and serialized body: it must be
    /// the next one expected, and is answered with its result.
    pub fn send(&mut self, hdr: &Header, data: &[u8]) -> (r: Result<(), InterfaceSendError>)
        requires
            old(self).expected_sends@.len() > 0,
            old(self).expected_sends@[0].hdr == *hdr,
            old(self).expected_sends@[0].data@ == data@,
        ensures
            r == old(self).expected_sends@[0].retval,
            final(self).expected_sends@ == old(self).expected_sends@.drop_first(),
            final(self).expected_send_errs@ == old(self).expected_send_errs@,
            final(self).expected_send_raws@ == old(self).expected_send_raws@,
    {
        let now = self.expected_sends.pop_front().unwrap();
        now.retval
    }

    /// Take a send of a protocol error: it must be the next one expected, and is
    /// answered with its result.
    pub fn send_err(&mut self, hdr: &Header, err: ProtocolError) -> (r: Result<(), InterfaceSendError>)
        requires
            old(self).expected_send_errs@.len() > 0,
            old(self).expected_send_errs@[0].hdr == *hdr,
            old(self).expected_send_errs@[0].err == err,
        ensures
            r == old(self).expected_send_errs@[0].retval,
            final(self).expected_sends@ == old(self).expected_sends@,
            final(self).expected_send_errs@ == old(self).expected_send_errs@.drop_first(),
            final(self).expected_send_raws@ == old(self).expected_send_raws@,
    {
        let now = self.expected_send_errs.pop_front().unwrap();
        now.retval
    }

    /// Take a send of a pre-serialized message (its header, the header's bytes and
    /// the body): it must be the next one expected, and is answered with its result.
    pub fn send_raw(&mut self, hdr: &Header, hdr_raw: &[u8], data: &[u8]) -> (r: Result<
        (),
        InterfaceSendError,
    >)
        requires
            old(self).expected_send_raws@.len() > 0,
            old(self).expected_send_raws@[0].hdr == *hdr,
            old(self).expected_send_raws@[0].hdr_raw@ == hdr_raw@,
            old(self).expected_send_raws@[0].body@ == data@,
        ensures
            r == old(self).expected_send_raws@[0].retval,
            final(self).expected_sends@ == old(self).expected_sends@,
            final(self).expected_send_errs@ == old(self).expected_send_errs@,
            final(self).expected_send_raws@ == old(self).expected_send_raws@.drop_first(),
    {
        let now = self.expected_send_raws.pop_front().unwrap();
        now.retval
    }
}

} // verus!
