//! Arrow Messages: the framed envelopes that travel on the upstream stream.
//!
//! Each message names the service and the session it belongs to. Its body is
//! either a chunk of service bytes or a Control Protocol message; of the
//! latter only HUP, which announces the end of a session, originates here.

use crate::buffer::chunk_bytes;
use bytes::Bytes;
use vstd::prelude::*;

verus! {

/// The error code of a HUP that follows a clean end of stream.
pub const HUP_NO_ERROR: u32 = 0x00;

/// The error code of a HUP that follows a failed session.
pub const HUP_CONNECTION_ERROR: u32 = 0x03;

/// The routing part of an Arrow Message.
#[derive(Clone, Copy, Debug, PartialEq, Eq, Structural)]
pub struct ArrowMessageHeader {
    /// The service that the session talks to.
    pub service: u16,
    /// The session that the message belongs to.
    pub session: u32,
}

/// A Control Protocol message.
#[derive(Clone, Copy, Debug, PartialEq, Eq, Structural)]
pub enum ControlMessage {
    /// The named session has ended; `error_code` is zero after a clean close.
    Hup { msg_id: u16, session_id: u32, error_code: u32 },
}

impl ControlMessage {
    /// A HUP for `session_id` with the given control message id and error
    /// code.
    pub fn hup(msg_id: u16, session_id: u32, error_code: u32) -> (msg: ControlMessage)
        ensures
            msg == (ControlMessage::Hup { msg_id, session_id, error_code }),
    {
        ControlMessage::Hup { msg_id, session_id, error_code }
    }
}

/// What an Arrow Message carries.
#[derive(Debug)]
pub enum ArrowMessageBody {
    /// Bytes exchanged with a service.
    Data(Bytes),
    /// A Control Protocol message.
    Control(ControlMessage),
}

/// An Arrow Message.
#[derive(Debug)]
pub struct ArrowMessage {
    header: ArrowMessageHeader,
    body: ArrowMessageBody,
}

/// The mathematical value of a message body.
pub enum BodyView {
    Data(Seq<u8>),
    Control(ControlMessage),
}

/// The mathematical value of an Arrow Message.
pub struct MessageView {
    pub service: u16,
    pub session: u32,
    pub body: BodyView,
}

impl MessageView {
    /// The service bytes that the message carries: a control message
    /// carries none.
    pub open spec fn payload(self) -> Seq<u8> {
        match self.body {
            BodyView::Data(bytes) => bytes,
            BodyView::Control(_) => Seq::empty(),
        }
    }
}

impl View for ArrowMessageBody {
    type V = BodyView;

    open spec fn view(&self) -> BodyView {
        match *self {
            ArrowMessageBody::Data(chunk) => BodyView::Data(chunk_bytes(chunk)),
            ArrowMessageBody::Control(msg) => BodyView::Control(msg),
        }
    }
}

impl View for ArrowMessage {
    type V = MessageView;

    closed spec fn view(&self) -> MessageView {
        MessageView { service: self.header.service, session: self.header.session, body: self.body@ }
    }
}

impl ArrowMessage {
    /// A message that carries `payload` for the given service and session.
    pub fn new(service: u16, session: u32, payload: Bytes) -> (msg: ArrowMessage)
        ensures
            msg@ == (MessageView { service, session, body: BodyView::Data(chunk_bytes(payload)) }),
    {
        ArrowMessage {
            header: ArrowMessageHeader { service, session },
            body: ArrowMessageBody::Data(payload),
        }
    }

    /// A message that carries a Control Protocol message.
    pub fn control(service: u16, session: u32, control: ControlMessage) -> (msg: ArrowMessage)
        ensures
            msg@ == (MessageView { service, session, body: BodyView::Control(control) }),
    {
        ArrowMessage {
            header: ArrowMessageHeader { service, session },
            body: ArrowMessageBody::Control(control),
        }
    }

    /// The routing part of the message.
    pub fn header(&self) -> (header: ArrowMessageHeader)
        ensures
            header.service == self@.service,
            header.session == self@.session,
    {
        self.header
    }

    /// What the message carries.
    pub fn body(&self) -> (body: &ArrowMessageBody)
        ensures
            body@ == self@.body,
    {
        &self.body
    }

    /// Takes the message apart.
    pub fn into_parts(self) -> (parts: (ArrowMessageHeader, ArrowMessageBody))
        ensures
            parts.0.service == self@.service,
            parts.0.session == self@.session,
            parts.1@ == self@.body,
    {
        (self.header, self.body)
    }
}

} // verus!
