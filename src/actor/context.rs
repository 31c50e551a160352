use vstd::prelude::*;

use super::actor_reference::{ActorPath, ActorRef};
use super::internal::{MessageWrapper, Outgoing, Registry};
use super::message::Message;

verus! {

/// Why a reply could not be sent.
#[derive(Debug, Clone, Copy, PartialEq, Eq, Structural)]
pub enum ReplyError {
    /// The dispatch that built the context knows of no sender to reply to.
    NoSender,
}

/// What behavior code sees during one dispatch: who sent the message, which
/// actor is handling it, the registry, and the envelopes sent so far.
///
/// A context is built fresh for each dispatch and dropped at its end; the
/// envelopes in `outbox` are then enqueued in the order they were sent.
pub struct Context<'a> {
    /// The handle of the immediate sender, where it is known.
    pub lastSender: Option<ActorRef>,
    /// The path of the actor handling the message.
    pub actorPath: ActorPath,
    /// The name of the actor handling the message.
    pub actorName: String,
    /// The shared directory of actors.
    pub routingData: &'a Registry,
    /// Envelopes sent during this dispatch, oldest first.
    pub outbox: Vec<Outgoing>,
}

impl<'a> Context<'a> {
    /// A context with nothing sent yet.
    pub fn new(
        lastSender: Option<ActorRef>,
        actorPath: ActorPath,
        actorName: String,
        routingData: &'a Registry,
    ) -> (r: Context<'a>)
        ensures
            r.lastSender == lastSender,
            r.actorPath == actorPath,
            r.actorName == actorName,
            r.routingData == routingData,
            r.outbox@.len() == 0,
    {
        Context { lastSender, actorPath, actorName, routingData, outbox: Vec::new() }
    }

    pub fn getLastSender(&self) -> (r: Option<ActorRef>)
        ensures
            r == self.lastSender,
    {
        match &self.lastSender {
            Some(lastSender) => Some(ActorRef::clone(lastSender)),
            None => None,
        }
    }

    pub fn getActorName(&self) -> (r: &String)
        ensures
            *r == self.actorName,
    {
        &self.actorName
    }

    /// Looks a path up in the registry.
    pub fn resolvePathStr(&self, actorPathStr: String) -> (r: Option<ActorRef>)
        ensures
            r == self.routingData.lookup(actorPathStr@),
    {
        self.routingData.resolve(&ActorPath(actorPathStr))
    }

    /// Sends `message` back to the sender of the message being handled, with this
    /// actor's path as its sender. Without a known sender nothing is sent.
    pub fn reply(&mut self, message: Message) -> (r: Result<(), ReplyError>)
        ensures
            final(self).lastSender == old(self).lastSender,
            final(self).actorPath == old(self).actorPath,
            final(self).actorName == old(self).actorName,
            final(self).routingData == old(self).routingData,
            old(self).lastSender is None ==> r == Err::<(), ReplyError>(ReplyError::NoSender)
                && final(self).outbox@ == old(self).outbox@,
            old(self).lastSender is Some ==> r == Ok::<(), ReplyError>(())
                && final(self).outbox@ == old(self).outbox@.push(
                (Outgoing {
                    target: old(self).lastSender->0,
                    envelope: MessageWrapper(message, old(self).actorPath),
                }),
            ),
    {
        match self.getLastSender() {
            Some(lastSender) => {
                self.push_outgoing(message, lastSender);
                Ok(())
            },
            None => Err(ReplyError::NoSender),
        }
    }

    /// Sends `message` to `actorRef`, with this actor's path as its sender.
    /// Sending is best effort: a handle whose mailbox does not exist swallows it.
    pub fn sendMsg(&mut self, message: Message, actorRef: &ActorRef) -> (r: Option<()>)
        ensures
            r == Some(()),
            final(self).lastSender == old(self).lastSender,
            final(self).actorPath == old(self).actorPath,
            final(self).actorName == old(self).actorName,
            final(self).routingData == old(self).routingData,
            final(self).outbox@ == old(self).outbox@.push(
                (Outgoing { target: *actorRef, envelope: MessageWrapper(message, old(self).actorPath) }),
            ),
    {
        self.push_outgoing(message, *actorRef);
        Some(())
    }

    fn push_outgoing(&mut self, message: Message, target: ActorRef)
        ensures
            final(self).lastSender == old(self).lastSender,
            final(self).actorPath == old(self).actorPath,
            final(self).actorName == old(self).actorName,
            final(self).routingData == old(self).routingData,
            final(self).outbox@ == old(self).outbox@.push(
                (Outgoing { target, envelope: MessageWrapper(message, old(self).actorPath) }),
            ),
    {
        let sender = self.actorPath.clone();
        self.outbox.push(Outgoing { target, envelope: MessageWrapper(message, sender) });
    }
}

} // verus!
