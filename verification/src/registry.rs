//! The process-global registry of message kinds: which kind ids are
//! understood, and the decode entry point that turns buffered bytes into
//! typed messages.

use vstd::prelude::*;
use crate::codec::{
    spec_build, spec_parse, SerializedMessage, SerializedMessageError, name_of_u16,
};
use crate::messages::{name_u16, Message, MessageName};

verus! {

#[derive(Debug, Clone, PartialEq, Eq)]
pub enum MessageRegistryError {
    IncompleteMessage,
    MessageIdNotInRegistry(u16),
    UnableToCastMessageToExpectedType,
    Malformed,
}

/// One registered message kind.
#[derive(Debug, Clone, Copy, PartialEq, Eq, Structural)]
pub struct RegisteredMessage {
    pub name: MessageName,
}

/// True iff the kind is registered.
pub open spec fn listed(listing: Seq<RegisteredMessage>, name: MessageName) -> bool {
    exists|i: int| 0 <= i < listing.len() && (#[trigger] listing[i]).name == name
}

/// The registry: the kinds this process understands.
#[derive(Debug, Clone, PartialEq, Eq)]
pub struct MessageRegistry {
    pub msg_listing: Vec<RegisteredMessage>,
}

impl MessageRegistry {
    /// A registry with every kind of the protocol registered.
    pub fn new() -> (r: MessageRegistry)
        ensures
            forall|n: MessageName| listed(r.msg_listing@, n),
    {
        let mut reg = MessageRegistry { msg_listing: Vec::new() };
        reg.register_messages();
        reg
    }

    /// Registers every kind of the protocol.
    pub fn register_messages(&mut self)
        ensures
            forall|n: MessageName| listed(final(self).msg_listing@, n),
    {
        self.add(MessageName::Ping);
        self.add(MessageName::Identify);
        self.add(MessageName::GenericResponse);
        self.add(MessageName::RunQuery);
        self.add(MessageName::RunQueryResp);
        self.add(MessageName::GetQueryStatus);
        self.add(MessageName::GetQueryStatusResp);
        self.add(MessageName::GetQueryData);
        self.add(MessageName::GetQueryDataResp);
        self.add(MessageName::OperatorInstanceAvailable);
        self.add(MessageName::OperatorInstanceAssignment);
        self.add(MessageName::QueryHandlerRequests);
        self.add(MessageName::QueryOperatorInstanceStatusChange);
        self.add(MessageName::OperatorShutdown);
        self.add(MessageName::OperatorOperatorInstanceStatusChange);
        self.add(MessageName::ExchangeRequests);
        self.add(MessageName::ExchangeOperatorStatusChange);
        proof {
            let base = old(self).msg_listing@.len() as int;
            assert forall|n: MessageName| listed(self.msg_listing@, n) by {
                match n {
                    MessageName::Ping => assert(self.msg_listing@[base + 0].name == n),
                    MessageName::Identify => assert(self.msg_listing@[base + 1].name == n),
                    MessageName::GenericResponse => assert(self.msg_listing@[base + 2].name == n),
                    MessageName::RunQuery => assert(self.msg_listing@[base + 3].name == n),
                    MessageName::RunQueryResp => assert(self.msg_listing@[base + 4].name == n),
                    MessageName::GetQueryStatus => assert(self.msg_listing@[base + 5].name == n),
                    MessageName::GetQueryStatusResp => assert(self.msg_listing@[base + 6].name
                        == n),
                    MessageName::GetQueryData => assert(self.msg_listing@[base + 7].name == n),
                    MessageName::GetQueryDataResp => assert(self.msg_listing@[base + 8].name
                        == n),
                    MessageName::OperatorInstanceAvailable => assert(self.msg_listing@[base
                        + 9].name == n),
                    MessageName::OperatorInstanceAssignment => assert(self.msg_listing@[base
                        + 10].name == n),
                    MessageName::QueryHandlerRequests => assert(self.msg_listing@[base + 11].name
                        == n),
                    MessageName::QueryOperatorInstanceStatusChange => assert(self.msg_listing@[base
                        + 12].name == n),
                    MessageName::OperatorShutdown => assert(self.msg_listing@[base + 13].name
                        == n),
                    MessageName::OperatorOperatorInstanceStatusChange => assert(self.msg_listing@[
                    base + 14].name == n),
                    MessageName::ExchangeRequests => assert(self.msg_listing@[base + 15].name
                        == n),
                    MessageName::ExchangeOperatorStatusChange => assert(self.msg_listing@[base
                        + 16].name == n),
                }
            }
        }
    }

    /// Registers one kind.
    pub fn add(&mut self, name: MessageName)
        ensures
            final(self).msg_listing@ == old(self).msg_listing@.push(
                RegisteredMessage { name },
            ),
    {
        self.msg_listing.push(RegisteredMessage { name });
    }

    /// The registered kind with this id, if any.
    pub fn find_by_reg_msg_id(&self, reg_msg_id: u16) -> (r: Option<MessageName>)
        ensures
            match r {
                Some(n) => listed(self.msg_listing@, n) && name_u16(n) == reg_msg_id,
                None => forall|i: int|
                    0 <= i < self.msg_listing@.len() ==> name_u16(
                        (#[trigger] self.msg_listing@[i]).name,
                    ) != reg_msg_id,
            },
    {
        let mut i: usize = 0;
        let n = self.msg_listing.len();
        while i < n
            invariant
                n == self.msg_listing@.len(),
                i <= n,
                forall|i0: int|
                    0 <= i0 < i ==> name_u16((#[trigger] self.msg_listing@[i0]).name)
                        != reg_msg_id,
            decreases n - i,
        {
            if self.msg_listing[i].name.as_u16() == reg_msg_id {
                return Some(self.msg_listing[i].name);
            }
            i = i + 1;
        }
        None
    }

    /// True iff the kind id names a registered kind.
    pub open spec fn registered(&self, kid: u16) -> bool {
        match name_of_u16(kid) {
            Some(n) => listed(self.msg_listing@, n),
            None => false,
        }
    }

    /// Decodes the frame at the front of the buffer into a message.
    ///
    /// The kind id of the frame is checked first, as soon as its 16 bytes
    /// are buffered: an unregistered kind is an error that leaves the
    /// buffer untouched, so the connection can be closed on it. A complete
    /// registered frame is consumed and decoded; an incomplete one asks
    /// the caller to keep reading.
    pub fn build_msg(&self, data: &mut Vec<u8>) -> (r: Result<Option<Message>, MessageRegistryError>)
        ensures
            old(data)@.len() < 16 ==> r == Err::<Option<Message>, MessageRegistryError>(
                MessageRegistryError::IncompleteMessage,
            ) && final(data)@ == old(data)@,
            old(data)@.len() >= 16 ==> {
                let kid = crate::wire::sdec_u16(old(data)@.skip(14))->Some_0.0;
                if !self.registered(kid) {
                    &&& r == Err::<Option<Message>, MessageRegistryError>(
                        MessageRegistryError::MessageIdNotInRegistry(kid),
                    )
                    &&& final(data)@ == old(data)@
                } else {
                    match spec_parse(old(data)@) {
                        Err(SerializedMessageError::Incomplete) => {
                            &&& r == Err::<Option<Message>, MessageRegistryError>(
                                MessageRegistryError::IncompleteMessage,
                            )
                            &&& final(data)@ == old(data)@
                        },
                        Err(_) => {
                            &&& r == Err::<Option<Message>, MessageRegistryError>(
                                MessageRegistryError::Malformed,
                            )
                            &&& final(data)@ == old(data)@
                        },
                        Ok(p) => {
                            &&& final(data)@ == old(data)@.skip(p.1)
                            &&& match spec_build(p.0) {
                                Ok(m) => (r matches Ok(o) && (o matches Some(built) && built@
                                    == m)),
                                Err(_) => r == Err::<Option<Message>, MessageRegistryError>(
                                    MessageRegistryError::Malformed,
                                ),
                            }
                        },
                    }
                }
            },
    {
        let kid = match SerializedMessage::parse_registered_msg_id(data) {
            Ok(k) => k,
            Err(_) => {
                return Err(MessageRegistryError::IncompleteMessage);
            },
        };
        match self.find_by_reg_msg_id(kid) {
            Some(_) => {},
            None => {
                return Err(MessageRegistryError::MessageIdNotInRegistry(kid));
            },
        }
        let sm = match SerializedMessage::parse(data) {
            Ok(sm) => sm,
            Err(e) => {
                return match e {
                    SerializedMessageError::Incomplete => Err(
                        MessageRegistryError::IncompleteMessage,
                    ),
                    _ => Err(MessageRegistryError::Malformed),
                };
            },
        };
        proof {
            let ghost s0 = old(data)@;
            if s0.len() >= 146 {
                crate::codec::lemma_header_sdec(s0);
            }
        }
        match Message::build_from_serialized_message(&sm) {
            Ok(m) => Ok(Some(m)),
            Err(_) => Err(MessageRegistryError::Malformed),
        }
    }

    /// The byte form of a message, for the write half of a connection.
    pub fn build_msg_bytes(&self, msg: &Message) -> (r: Result<Vec<u8>, SerializedMessageError>)
        ensures
            crate::codec::message_encodable(msg@) ==> (r is Ok && r->Ok_0@
                == crate::codec::spec_message_bytes(msg@)),
    {
        msg.to_bytes()
    }
}

} // verus!
