use vstd::prelude::*;

verus! {

/// A handle that can enqueue envelopes into one actor's mailbox.
///
/// Handles are plain values: copying one shares the same mailbox endpoint.
#[derive(Debug, Clone, Copy, PartialEq, Eq, Structural)]
pub struct ActorRef {
    mailbox: usize,
}

impl ActorRef {
    /// The mailbox this handle sends into.
    pub closed spec fn id(&self) -> nat {
        self.mailbox as nat
    }

    pub(crate) fn new(mailbox: usize) -> (r: ActorRef)
        ensures
            r.id() == mailbox,
    {
        ActorRef { mailbox }
    }

    pub(crate) fn mailbox_index(&self) -> (r: usize)
        ensures
            r == self.id(),
    {
        self.mailbox
    }

    /// A second handle to the same mailbox.
    pub fn clone(other: &ActorRef) -> (r: ActorRef)
        ensures
            r == *other,
    {
        *other
    }
}

/// The symbolic name under which an actor is registered.
#[derive(Debug)]
pub struct ActorPath(pub String);

impl View for ActorPath {
    type V = Seq<char>;

    open spec fn view(&self) -> Seq<char> {
        self.0@
    }
}

impl ActorPath {
    pub fn from(pathStr: &str) -> (r: ActorPath)
        ensures
            r@ == pathStr@,
    {
        ActorPath(String::from_str(pathStr))
    }
}

impl Clone for ActorPath {
    fn clone(&self) -> (r: ActorPath)
        ensures
            r == *self,
    {
        ActorPath(self.0.clone())
    }
}

impl PartialEq for ActorPath {
    fn eq(&self, other: &ActorPath) -> (r: bool)
        ensures
            r == (self@ == other@),
    {
        self.0 == other.0
    }
}

impl vstd::std_specs::cmp::PartialEqSpecImpl for ActorPath {
    open spec fn obeys_eq_spec() -> bool {
        true
    }

    open spec fn eq_spec(&self, other: &ActorPath) -> bool {
        self@ == other@
    }
}

impl Eq for ActorPath {
}

} // verus!
