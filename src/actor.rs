use vstd::prelude::*;

pub mod actor_reference;
pub mod context;
pub mod internal;
pub mod message;

pub use actor_reference::{ActorPath, ActorRef};
pub use context::{Context, ReplyError};
pub use internal::{MessageWrapper, Outgoing, RegisterError, Registry};
pub use message::{Message, SystemMessage, UserMessage};

verus! {

/// User-supplied logic of an actor.
pub trait ActorBehavior {
    /// Invoked once for each envelope taken from the actor's mailbox.
    fn onReceive(&self, message: &Message, context: &mut Context);

    /// Invoked once, before the actor handles any message; no sender is known.
    fn start(&self, context: &mut Context) {
    }
}

/// Where an actor stands in its lifecycle.
#[derive(Debug, Clone, Copy, PartialEq, Eq, Structural)]
pub enum ActorState {
    /// Registered with a mailbox, start hook not yet run.
    Created,
    /// Start hook run, not yet handling messages.
    Started,
    /// Handling messages.
    Running,
}

/// What one step of an actor's processing loop did.
#[derive(Debug)]
pub enum Dispatch {
    /// The actor has not been started, so nothing was taken from its mailbox.
    NotStarted,
    /// The mailbox was empty.
    Idle,
    /// An envelope was handled, with its sender known for replies.
    Handled,
    /// An envelope was handled, but its sender path is not registered, so the
    /// behavior ran without a sender to reply to.
    UnknownSender(ActorPath),
}

/// The state of one actor: identity, mailbox and behavior.
pub struct ActorInner<B> {
    /// The name the actor was created with.
    pub name: String,
    /// Envelopes waiting to be handled, oldest first.
    pub mailbox: Vec<MessageWrapper>,
    /// The actor's behavior.
    pub behavior: B,
    /// The path the actor is registered under.
    pub actorPath: ActorPath,
    /// The handle of the actor's own mailbox.
    pub actorRef: ActorRef,
    /// Where the actor stands in its lifecycle.
    pub state: ActorState,
}

/// The two actors have the same name, behavior, path and handle.
pub open spec fn same_identity<B>(a: ActorInner<B>, b: ActorInner<B>) -> bool {
    &&& a.name == b.name
    &&& a.behavior == b.behavior
    &&& a.actorPath == b.actorPath
    &&& a.actorRef == b.actorRef
}

/// The path an actor of the given name is registered under.
pub open spec fn path_of(name: Seq<char>) -> Seq<char> {
    seq!['/'] + name
}

impl<B: ActorBehavior> ActorInner<B> {
    fn getContext<'a>(&self, lastSender: Option<ActorRef>, routingData: &'a Registry) -> (r:
        Context<'a>)
        ensures
            r.lastSender == lastSender,
            r.actorPath == self.actorPath,
            r.actorName == self.name,
            r.routingData == routingData,
            r.outbox@.len() == 0,
    {
        Context::new(lastSender, self.actorPath.clone(), self.name.clone(), routingData)
    }
}

/// An actor: its mailbox and behavior, and the loop step that feeds one to the other.
pub struct Actor<B> {
    pub inner: ActorInner<B>,
}

impl<B: ActorBehavior> Actor<B> {
    fn new(name: String, behavior: B, actorPath: ActorPath, actorRef: ActorRef) -> (r: Actor<B>)
        ensures
            r.inner.name == name,
            r.inner.behavior == behavior,
            r.inner.actorPath == actorPath,
            r.inner.actorRef == actorRef,
            r.inner.mailbox@.len() == 0,
            r.inner.state == ActorState::Created,
    {
        let inner = ActorInner {
            name,
            mailbox: Vec::new(),
            behavior,
            actorPath,
            actorRef,
            state: ActorState::Created,
        };
        Actor { inner }
    }

    /// Runs the start hook with a context that knows no sender, and hands back
    /// what the hook sent.
    pub fn start(&mut self, routingData: &Registry) -> (r: Vec<Outgoing>)
        requires
            old(self).inner.state == ActorState::Created,
        ensures
            same_identity(final(self).inner, old(self).inner),
            final(self).inner.mailbox == old(self).inner.mailbox,
            final(self).inner.state == ActorState::Started,
    {
        let mut context = self.inner.getContext(None, routingData);
        self.inner.behavior.start(&mut context);
        self.inner.state = ActorState::Started;
        context.outbox
    }

    /// One step of the processing loop: takes the oldest envelope, resolves its
    /// sender, and hands the message to the behavior. Returns what the behavior
    /// sent.
    pub fn processNext(&mut self, routingData: &Registry) -> (r: (Dispatch, Vec<Outgoing>))
        requires
            old(self).inner.state == ActorState::Running,
        ensures
            same_identity(final(self).inner, old(self).inner),
            final(self).inner.state == old(self).inner.state,
            old(self).inner.mailbox@.len() == 0 ==> r.0 is Idle && r.1@.len() == 0
                && final(self).inner.mailbox == old(self).inner.mailbox,
            old(self).inner.mailbox@.len() > 0 ==> final(self).inner.mailbox@ == old(self).inner.mailbox@.drop_first(),
            old(self).inner.mailbox@.len() > 0 && routingData.view().contains_key(
                old(self).inner.mailbox@[0].1@,
            ) ==> r.0 is Handled,
            old(self).inner.mailbox@.len() > 0 && !routingData.view().contains_key(
                old(self).inner.mailbox@[0].1@,
            ) ==> r.0 == Dispatch::UnknownSender(old(self).inner.mailbox@[0].1),
    {
        if self.inner.mailbox.len() == 0 {
            return (Dispatch::Idle, Vec::new());
        }
        let envelope = self.inner.mailbox.remove(0);
        let MessageWrapper(message, senderPath) = envelope;
        let lastSender = routingData.resolve(&senderPath);
        let known = lastSender.is_some();
        let mut context = self.inner.getContext(lastSender, routingData);
        self.inner.behavior.onReceive(&message, &mut context);
        if known {
            (Dispatch::Handled, context.outbox)
        } else {
            (Dispatch::UnknownSender(senderPath), context.outbox)
        }
    }

    pub fn getActorRef(&self) -> (r: ActorRef)
        ensures
            r == self.inner.actorRef,
    {
        ActorRef::clone(&self.inner.actorRef)
    }
}

/// The mailboxes after `o` is enqueued; a handle naming no mailbox swallows it.
pub open spec fn deliver_one(mb: Seq<Seq<MessageWrapper>>, o: Outgoing) -> Seq<
    Seq<MessageWrapper>,
> {
    if o.target.id() < mb.len() {
        mb.update(o.target.id() as int, mb[o.target.id() as int].push(o.envelope))
    } else {
        mb
    }
}

/// The mailboxes after the envelopes of `ob` are enqueued, oldest first.
pub open spec fn delivered(mb: Seq<Seq<MessageWrapper>>, ob: Seq<Outgoing>) -> Seq<
    Seq<MessageWrapper>,
>
    decreases ob.len(),
{
    if ob.len() == 0 {
        mb
    } else {
        delivered(deliver_one(mb, ob[0]), ob.drop_first())
    }
}

/// Why an actor could not be created.
#[derive(Debug, Clone, Copy, PartialEq, Eq, Structural)]
pub enum CreateError {
    /// An actor of that name exists already; nothing was changed.
    DuplicateName,
}

/// Owner of all actors and of the registry that names them.
pub struct ActorSystem<B> {
    rootPath: String,
    pathToActorRef: Registry,
    actors: Vec<Actor<B>>,
}

impl<B: ActorBehavior> ActorSystem<B> {
    /// The registry's bindings.
    pub closed spec fn registry(&self) -> Map<Seq<char>, ActorRef> {
        self.pathToActorRef.view()
    }

    /// The actors, in order of creation.
    pub closed spec fn actors(&self) -> Seq<Actor<B>> {
        self.actors@
    }

    /// Each actor's pending envelopes, oldest first, in order of creation.
    pub open spec fn mailboxes(&self) -> Seq<Seq<MessageWrapper>> {
        self.actors().map_values(|a: Actor<B>| a.inner.mailbox@)
    }

    /// Every actor is registered under the path of its name, bound to its own
    /// mailbox, and the registry binds nothing else.
    pub closed spec fn wf(&self) -> bool {
        &&& self.rootPath@ == seq!['/']
        &&& forall|i: int|
            0 <= i < self.actors@.len() ==> {
                let a = #[trigger] self.actors@[i].inner;
                &&& a.actorRef.id() == i
                &&& a.actorPath@ == path_of(a.name@)
                &&& self.registry().contains_key(a.actorPath@)
                &&& self.registry()[a.actorPath@] == a.actorRef
            }
        &&& forall|k: Seq<char>| #[trigger]
            self.registry().contains_key(k) ==> {
                &&& self.registry()[k].id() < self.actors@.len()
                &&& self.actors@[self.registry()[k].id() as int].inner.actorPath@ == k
            }
    }

    /// An empty system under the root path `/`.
    pub fn create() -> (r: Self)
        ensures
            r.wf(),
            r.registry() == Map::<Seq<char>, ActorRef>::empty(),
            r.actors().len() == 0,
    {
        proof {
            reveal_strlit("/");
        }
        let r = ActorSystem {
            rootPath: String::from_str("/"),
            pathToActorRef: Registry::new(),
            actors: Vec::new(),
        };
        assert(r.rootPath@ =~= seq!['/']);
        r
    }

    /// Creates an actor named `name`, registered under `/name`, and returns its
    /// handle. A name already in use is refused and nothing changes.
    pub fn createActor(&mut self, name: String, behavior: B) -> (r: Result<ActorRef, CreateError>)
        requires
            old(self).wf(),
            old(self).actors().len() < usize::MAX,
        ensures
            final(self).wf(),
            old(self).registry().contains_key(path_of(name@)) ==> r == Err::<ActorRef, CreateError>(
                CreateError::DuplicateName,
            ) && final(self).registry() == old(self).registry() && final(self).actors() == old(self).actors(),
            !old(self).registry().contains_key(path_of(name@)) ==> r is Ok && {
                let a = final(self).actors().last().inner;
                &&& r->Ok_0.id() == old(self).actors().len()
                &&& final(self).registry() == old(self).registry().insert(path_of(name@), r->Ok_0)
                &&& final(self).actors().len() == old(self).actors().len() + 1
                &&& final(self).actors().drop_last() == old(self).actors()
                &&& a.name == name
                &&& a.behavior == behavior
                &&& a.actorPath@ == path_of(name@)
                &&& a.actorRef == r->Ok_0
                &&& a.mailbox@.len() == 0
                &&& a.state == ActorState::Created
            },
    {
        let mut pathStr = self.rootPath.clone();
        pathStr.append(name.as_str());
        let actorPath = ActorPath(pathStr);
        let actorRef = ActorRef::new(self.actors.len());
        let ghost prev = *self;
        match self.pathToActorRef.register(actorPath.clone(), actorRef) {
            Err(_) => {
                return Err(CreateError::DuplicateName);
            },
            Ok(()) => {},
        }
        let actor = Actor::new(name, behavior, actorPath, actorRef);
        self.actors.push(actor);
        proof {
            assert(self.actors@.drop_last() =~= prev.actors@);
            assert forall|i: int| 0 <= i < self.actors@.len() implies {
                let a = #[trigger] self.actors@[i].inner;
                &&& a.actorRef.id() == i
                &&& a.actorPath@ == path_of(a.name@)
                &&& self.registry().contains_key(a.actorPath@)
                &&& self.registry()[a.actorPath@] == a.actorRef
            } by {
                if i < prev.actors@.len() {
                    assert(self.actors@[i] == prev.actors@[i]);
                }
            }
            assert forall|k: Seq<char>| #[trigger] self.registry().contains_key(k) implies {
                &&& self.registry()[k].id() < self.actors@.len()
                &&& self.actors@[self.registry()[k].id() as int].inner.actorPath@ == k
            } by {
                if k != path_of(name@) {
                    assert(prev.registry().contains_key(k));
                    assert(self.actors@[prev.registry()[k].id() as int] == prev.actors@[prev.registry()[k].id() as int]);
                }
            }
        }
        Ok(actorRef)
    }

    /// Enqueues the envelopes of `outbox` in order, each into the mailbox its
    /// handle names.
    fn deliver(&mut self, outbox: Vec<Outgoing>)
        requires
            old(self).wf(),
        ensures
            final(self).wf(),
            final(self).registry() == old(self).registry(),
            final(self).actors().len() == old(self).actors().len(),
            forall|i: int|
                0 <= i < old(self).actors().len() ==> same_identity(
                    #[trigger] final(self).actors()[i].inner,
                    old(self).actors()[i].inner,
                ) && final(self).actors()[i].inner.state == old(self).actors()[i].inner.state,
            final(self).mailboxes() == delivered(old(self).mailboxes(), outbox@),
    {
        let mut outbox = outbox;
        let ghost start = *self;
        let ghost target = delivered(self.mailboxes(), outbox@);
        while outbox.len() > 0
            invariant
                self.wf(),
                self.registry() == start.registry(),
                self.actors().len() == start.actors().len(),
                forall|i: int|
                    0 <= i < start.actors().len() ==> same_identity(
                        #[trigger] self.actors()[i].inner,
                        start.actors()[i].inner,
                    ) && self.actors()[i].inner.state == start.actors()[i].inner.state,
                delivered(self.mailboxes(), outbox@) == target,
            decreases outbox.len(),
        {
            let ghost before = *self;
            let ghost rest = outbox@.drop_first();
            let o = outbox.remove(0);
            let Outgoing { target: dest, envelope } = o;
            let id = dest.mailbox_index();
            if id < self.actors.len() {
                self.actors[id].inner.mailbox.push(envelope);
            }
            proof {
                assert(outbox@ =~= rest);
                assert(self.mailboxes() =~= deliver_one(before.mailboxes(), o));
                Self::lemma_wf_kept(before, *self);
            }
        }
    }

    proof fn lemma_wf_kept(before: Self, after: Self)
        requires
            before.wf(),
            after.rootPath == before.rootPath,
            after.registry() == before.registry(),
            after.actors@.len() == before.actors@.len(),
            forall|i: int|
                0 <= i < before.actors@.len() ==> same_identity(
                    #[trigger] after.actors@[i].inner,
                    before.actors@[i].inner,
                ),
        ensures
            after.wf(),
    {
        assert forall|i: int| 0 <= i < after.actors@.len() implies {
            let a = #[trigger] after.actors@[i].inner;
            &&& a.actorRef.id() == i
            &&& a.actorPath@ == path_of(a.name@)
            &&& after.registry().contains_key(a.actorPath@)
            &&& after.registry()[a.actorPath@] == a.actorRef
        } by {
            assert(same_identity(after.actors@[i].inner, before.actors@[i].inner));
        }
        assert forall|k: Seq<char>| #[trigger] after.registry().contains_key(k) implies {
            &&& after.registry()[k].id() < after.actors@.len()
            &&& after.actors@[after.registry()[k].id() as int].inner.actorPath@ == k
        } by {
            let j = after.registry()[k].id() as int;
            assert(same_identity(after.actors@[j].inner, before.actors@[j].inner));
        }
    }

    /// Runs the start hook of every actor not started yet, in order of creation,
    /// enqueueing what each hook sends before the next hook runs, and marks every
    /// actor as handling messages.
    pub fn start(&mut self)
        requires
            old(self).wf(),
        ensures
            final(self).wf(),
            final(self).registry() == old(self).registry(),
            final(self).actors().len() == old(self).actors().len(),
            forall|i: int|
                0 <= i < old(self).actors().len() ==> same_identity(
                    #[trigger] final(self).actors()[i].inner,
                    old(self).actors()[i].inner,
                ) && final(self).actors()[i].inner.state == ActorState::Running,
            exists|ob: Seq<Outgoing>| final(self).mailboxes() == delivered(old(self).mailboxes(), ob),
    {
        let ghost start = *self;
        let ghost mut sent: Seq<Outgoing> = Seq::empty();
        assert(delivered(self.mailboxes(), sent) == self.mailboxes());
        let n = self.actors.len();
        let mut i: usize = 0;
        while i < n
            invariant
                self.wf(),
                i <= n,
                n == self.actors@.len(),
                self.registry() == start.registry(),
                self.actors@.len() == start.actors@.len(),
                forall|j: int|
                    0 <= j < n ==> same_identity(
                        #[trigger] self.actors@[j].inner,
                        start.actors@[j].inner,
                    ),
                forall|j: int| 0 <= j < i ==> #[trigger] self.actors@[j].inner.state == ActorState::Running,
                forall|j: int| i <= j < n ==> #[trigger] self.actors@[j].inner.state == start.actors@[j].inner.state,
                self.mailboxes() == delivered(start.mailboxes(), sent),
            decreases n - i,
        {
            if self.actors[i].inner.state == ActorState::Created {
                let ghost top = *self;
                let outbox = self.actors[i].start(&self.pathToActorRef);
                proof {
                    Self::lemma_wf_kept(top, *self);
                    assert(forall|j: int| 0 <= j < n && j != i ==> self.actors@[j] == top.actors@[j]);
                    assert(self.mailboxes() =~= top.mailboxes());
                    lemma_delivered_concat(start.mailboxes(), sent, outbox@);
                    sent = sent + outbox@;
                }
                self.deliver(outbox);
            }
            let ghost before = *self;
            self.actors[i].inner.state = ActorState::Running;
            proof {
                Self::lemma_wf_kept(before, *self);
                assert(forall|j: int| 0 <= j < n && j != i ==> self.actors@[j] == before.actors@[j]);
                assert(self.mailboxes() =~= before.mailboxes());
            }
            i = i + 1;
        }
    }

    /// One step of the processing loop of the actor at `idx`: takes its oldest
    /// envelope, hands it to the behavior, and enqueues what the behavior sent.
    pub fn dispatch(&mut self, idx: usize) -> (r: Dispatch)
        requires
            old(self).wf(),
            idx < old(self).actors().len(),
        ensures
            final(self).wf(),
            final(self).registry() == old(self).registry(),
            final(self).actors().len() == old(self).actors().len(),
            forall|i: int|
                0 <= i < old(self).actors().len() ==> same_identity(
                    #[trigger] final(self).actors()[i].inner,
                    old(self).actors()[i].inner,
                ) && final(self).actors()[i].inner.state == old(self).actors()[i].inner.state,
            ({
                let a = old(self).actors()[idx as int].inner;
                &&& a.state != ActorState::Running ==> r is NotStarted && final(self).mailboxes()
                    == old(self).mailboxes()
                &&& a.state == ActorState::Running && a.mailbox@.len() == 0 ==> r is Idle && final(self).mailboxes() == old(self).mailboxes()
                &&& a.state == ActorState::Running && a.mailbox@.len() > 0 ==> {
                    &&& exists|ob: Seq<Outgoing>|
                        final(self).mailboxes() == delivered(
                            old(self).mailboxes().update(idx as int, a.mailbox@.drop_first()),
                            ob,
                        )
                    &&& old(self).registry().contains_key(a.mailbox@[0].1@) ==> r is Handled
                    &&& !old(self).registry().contains_key(a.mailbox@[0].1@) ==> r
                        == Dispatch::UnknownSender(a.mailbox@[0].1)
                }
            }),
    {
        if self.actors[idx].inner.state != ActorState::Running {
            return Dispatch::NotStarted;
        }
        let ghost start = *self;
        let (outcome, outbox) = self.actors[idx].processNext(&self.pathToActorRef);
        proof {
            Self::lemma_wf_kept(start, *self);
            assert(forall|j: int| 0 <= j < self.actors@.len() && j != idx ==> self.actors@[j] == start.actors@[j]);
            if start.actors@[idx as int].inner.mailbox@.len() > 0 {
                assert(self.mailboxes() =~= start.mailboxes().update(
                    idx as int,
                    start.actors@[idx as int].inner.mailbox@.drop_first(),
                ));
            } else {
                assert(self.mailboxes() =~= start.mailboxes());
            }
        }
        let ghost mid = self.mailboxes();
        let ghost ob = outbox@;
        self.deliver(outbox);
        proof {
            assert(self.mailboxes() == delivered(mid, ob));
        }
        outcome
    }

    /// The registry that names this system's actors.
    pub fn getRegistry(&self) -> (r: &Registry)
        ensures
            r.view() == self.registry(),
    {
        &self.pathToActorRef
    }

    /// How many actors have been created.
    pub fn actorCount(&self) -> (r: usize)
        ensures
            r == self.actors().len(),
    {
        self.actors.len()
    }

    /// The actor at `idx`, in order of creation.
    pub fn getActor(&self, idx: usize) -> (r: &Actor<B>)
        requires
            idx < self.actors().len(),
        ensures
            *r == self.actors()[idx as int],
    {
        &self.actors[idx]
    }
}

/// Enqueueing leaves the number of mailboxes as it was.
pub proof fn lemma_delivered_len(mb: Seq<Seq<MessageWrapper>>, ob: Seq<Outgoing>)
    ensures
        delivered(mb, ob).len() == mb.len(),
    decreases ob.len(),
{
    if ob.len() > 0 {
        lemma_delivered_len(deliver_one(mb, ob[0]), ob.drop_first());
    }
}

/// Sending one more envelope enqueues it after everything sent before it.
pub proof fn lemma_delivered_push(mb: Seq<Seq<MessageWrapper>>, ob: Seq<Outgoing>, o: Outgoing)
    ensures
        delivered(mb, ob.push(o)) == deliver_one(delivered(mb, ob), o),
    decreases ob.len(),
{
    if ob.len() == 0 {
        assert(ob.push(o).drop_first() =~= Seq::<Outgoing>::empty());
        assert(ob.push(o)[0] == o);
        assert(delivered(deliver_one(mb, o), Seq::<Outgoing>::empty()) == deliver_one(mb, o));
    } else {
        assert(ob.push(o)[0] == ob[0]);
        assert(ob.push(o).drop_first() =~= ob.drop_first().push(o));
        lemma_delivered_push(deliver_one(mb, ob[0]), ob.drop_first(), o);
    }
}

/// The envelopes of `ob` addressed to mailbox `b`, in the order they were sent.
pub open spec fn sent_to(ob: Seq<Outgoing>, b: nat) -> Seq<MessageWrapper>
    decreases ob.len(),
{
    if ob.len() == 0 {
        Seq::empty()
    } else {
        let rest = sent_to(ob.drop_last(), b);
        if ob.last().target.id() == b {
            rest.push(ob.last().envelope)
        } else {
            rest
        }
    }
}

/// Enqueueing a batch loses nothing and keeps order: each mailbox ends with what
/// it held before followed by exactly the envelopes addressed to it, in the
/// order they were sent.
pub proof fn lemma_delivered_appends_in_order(
    mb: Seq<Seq<MessageWrapper>>,
    ob: Seq<Outgoing>,
    b: int,
)
    requires
        0 <= b < mb.len(),
    ensures
        delivered(mb, ob).len() == mb.len(),
        delivered(mb, ob)[b] == mb[b] + sent_to(ob, b as nat),
    decreases ob.len(),
{
    lemma_delivered_len(mb, ob);
    if ob.len() == 0 {
        assert(mb[b] + Seq::<MessageWrapper>::empty() =~= mb[b]);
    } else {
        let init = ob.drop_last();
        assert(init.push(ob.last()) =~= ob);
        lemma_delivered_push(mb, init, ob.last());
        lemma_delivered_appends_in_order(mb, init, b);
        lemma_delivered_len(mb, init);
        if ob.last().target.id() == b {
            assert(mb[b] + sent_to(init, b as nat).push(ob.last().envelope) =~= (mb[b] + sent_to(
                init,
                b as nat,
            )).push(ob.last().envelope));
        }
    }
}

/// Enqueueing two batches one after the other is enqueueing them as one.
pub proof fn lemma_delivered_concat(
    mb: Seq<Seq<MessageWrapper>>,
    first: Seq<Outgoing>,
    second: Seq<Outgoing>,
)
    ensures
        delivered(delivered(mb, first), second) == delivered(mb, first + second),
    decreases second.len(),
{
    if second.len() == 0 {
        assert(first + second =~= first);
    } else {
        let init = second.drop_last();
        assert(init.push(second.last()) =~= second);
        assert((first + init).push(second.last()) =~= first + second);
        lemma_delivered_concat(mb, first, init);
        lemma_delivered_push(delivered(mb, first), init, second.last());
        lemma_delivered_push(mb, first + init, second.last());
    }
}

/// A reply sent from a context whose sender is known reaches that sender's
/// mailbox as exactly one more envelope, holding the message and the replying
/// actor's path, behind everything sent before it; no other mailbox changes.
pub proof fn lemma_reply_delivers_once(
    mb: Seq<Seq<MessageWrapper>>,
    before: Seq<Outgoing>,
    sender: ActorRef,
    message: Message,
    replier: ActorPath,
)
    requires
        sender.id() < mb.len(),
    ensures
        ({
            let prev = delivered(mb, before);
            let after = delivered(
                mb,
                before.push(
                    (Outgoing { target: sender, envelope: MessageWrapper(message, replier) }),
                ),
            );
            &&& after.len() == mb.len()
            &&& after[sender.id() as int] == prev[sender.id() as int].push(
                MessageWrapper(message, replier),
            )
            &&& forall|j: int| 0 <= j < mb.len() && j != sender.id() ==> after[j] == prev[j]
        }),
{
    let o = Outgoing { target: sender, envelope: MessageWrapper(message, replier) };
    lemma_delivered_len(mb, before);
    lemma_delivered_push(mb, before, o);
}

/// Two envelopes sent one right after the other to the same mailbox are queued
/// there in the order they were sent, so the first is taken out before the second.
pub proof fn lemma_consecutive_sends_keep_order(
    mb: Seq<Seq<MessageWrapper>>,
    ob: Seq<Outgoing>,
    first: Outgoing,
    second: Outgoing,
)
    requires
        first.target == second.target,
        first.target.id() < mb.len(),
    ensures
        ({
            let b = first.target.id() as int;
            let prev = delivered(mb, ob);
            let after = delivered(mb, ob.push(first).push(second));
            &&& after.len() == mb.len()
            &&& after[b] == prev[b].push(first.envelope).push(second.envelope)
            &&& forall|j: int| 0 <= j < mb.len() && j != b ==> after[j] == prev[j]
        }),
{
    lemma_delivered_len(mb, ob);
    lemma_delivered_push(mb, ob, first);
    lemma_delivered_push(mb, ob.push(first), second);
}

impl<B: ActorBehavior> ActorSystem<B> {
    /// Whatever the order in which actors were created, each one is found under
    /// `/` followed by its name, bound to the handle of its own mailbox; and every
    /// handle in the registry names an existing mailbox.
    pub proof fn lemma_every_actor_resolves(&self)
        requires
            self.wf(),
        ensures
            forall|i: int|
                0 <= i < self.actors().len() ==> {
                    let a = #[trigger] self.actors()[i].inner;
                    &&& a.actorPath@ == path_of(a.name@)
                    &&& self.registry().contains_key(path_of(a.name@))
                    &&& self.registry()[path_of(a.name@)] == a.actorRef
                    &&& a.actorRef.id() == i
                },
            forall|k: Seq<char>| #[trigger]
                self.registry().contains_key(k) ==> self.registry()[k].id()
                    < self.mailboxes().len(),
    {
    }
}

} // verus!
