use std::cell::RefCell;
use std::rc::Rc;

use actor_framework::actor::{
    ActorBehavior, ActorPath, ActorState, ActorSystem, Context, CreateError, Dispatch, Message,
    MessageWrapper, RegisterError, Registry, ReplyError, UserMessage,
};

fn user(text: &str) -> Message {
    Message::User(UserMessage::StringMessage(String::from(text)))
}

fn text_of(message: &Message) -> String {
    match message {
        Message::User(UserMessage::StringMessage(s)) => s.clone(),
        Message::System(_) => String::from("<system>"),
    }
}

/// A scripted behavior: sends fixed messages from its start hook, records what
/// it receives, and optionally replies to each message.
struct Script {
    log: Rc<RefCell<Vec<String>>>,
    on_start: Vec<(String, String)>,
    reply_with: Option<String>,
    disguise_as: Option<String>,
}

impl Script {
    fn new(log: &Rc<RefCell<Vec<String>>>) -> Script {
        Script { log: Rc::clone(log), on_start: vec![], reply_with: None, disguise_as: None }
    }
}

impl ActorBehavior for Script {
    fn onReceive(&self, message: &Message, context: &mut Context) {
        self.log.borrow_mut().push(text_of(message));
        if let Some(reply) = &self.reply_with {
            context.reply(user(reply)).expect("sender should be known");
        }
    }

    fn start(&self, context: &mut Context) {
        if let Some(path) = &self.disguise_as {
            context.actorPath = ActorPath::from(path);
        }
        for (target, text) in self.on_start.iter() {
            if let Some(r) = context.resolvePathStr(target.clone()) {
                context.sendMsg(user(text), &r);
            }
        }
    }
}

fn new_log() -> Rc<RefCell<Vec<String>>> {
    Rc::new(RefCell::new(vec![]))
}

fn mailbox_texts(sys: &ActorSystem<Script>, idx: usize) -> Vec<(String, String)> {
    sys.getActor(idx)
        .inner
        .mailbox
        .iter()
        .map(|MessageWrapper(m, p)| (text_of(m), p.0.clone()))
        .collect()
}

#[test]
fn ping_then_reply_reaches_second_actor() {
    let log1 = new_log();
    let log2 = new_log();
    let mut sys = ActorSystem::create();
    let mut first = Script::new(&log1);
    first.reply_with = Some(String::from("pong"));
    let mut second = Script::new(&log2);
    second.on_start = vec![(String::from("/first-actor"), String::from("ping"))];
    sys.createActor(String::from("first-actor"), first).unwrap();
    sys.createActor(String::from("second-actor"), second).unwrap();

    sys.start();
    assert_eq!(
        mailbox_texts(&sys, 0),
        vec![(String::from("ping"), String::from("/second-actor"))]
    );
    assert!(matches!(sys.dispatch(0), Dispatch::Handled));
    assert_eq!(*log1.borrow(), vec![String::from("ping")]);
    assert_eq!(
        mailbox_texts(&sys, 1),
        vec![(String::from("pong"), String::from("/first-actor"))]
    );
    assert!(matches!(sys.dispatch(1), Dispatch::Handled));
    assert_eq!(*log2.borrow(), vec![String::from("pong")]);
    assert!(matches!(sys.dispatch(0), Dispatch::Idle));
    assert!(matches!(sys.dispatch(1), Dispatch::Idle));
}

#[test]
fn unregistered_path_resolves_to_nothing_and_sends_nothing() {
    let log = new_log();
    let mut sys = ActorSystem::create();
    let mut lonely = Script::new(&log);
    lonely.on_start = vec![(String::from("/nobody"), String::from("hello"))];
    sys.createActor(String::from("lonely"), lonely).unwrap();
    assert!(sys.getRegistry().resolve(&ActorPath::from("/nobody")).is_none());
    sys.start();
    assert!(mailbox_texts(&sys, 0).is_empty());
    assert!(matches!(sys.dispatch(0), Dispatch::Idle));
    assert!(log.borrow().is_empty());
}

#[test]
fn interleaved_senders_lose_nothing() {
    let log_a = new_log();
    let log_b = new_log();
    let log_c = new_log();
    let mut sys = ActorSystem::create();
    let mut a = Script::new(&log_a);
    a.on_start = vec![
        (String::from("/c"), String::from("a1")),
        (String::from("/c"), String::from("a2")),
    ];
    let mut b = Script::new(&log_b);
    b.on_start = vec![
        (String::from("/c"), String::from("b1")),
        (String::from("/c"), String::from("b2")),
    ];
    sys.createActor(String::from("c"), Script::new(&log_c)).unwrap();
    sys.createActor(String::from("a"), a).unwrap();
    sys.createActor(String::from("b"), b).unwrap();
    sys.start();
    for _ in 0..4 {
        assert!(matches!(sys.dispatch(0), Dispatch::Handled));
    }
    assert!(matches!(sys.dispatch(0), Dispatch::Idle));
    let seen = log_c.borrow().clone();
    let mut sorted = seen.clone();
    sorted.sort();
    assert_eq!(sorted, vec!["a1", "a2", "b1", "b2"]);
    let pos = |s: &str| seen.iter().position(|x| x == s).unwrap();
    assert!(pos("a1") < pos("a2"));
    assert!(pos("b1") < pos("b2"));
}

#[test]
fn every_created_actor_resolves_to_itself() {
    let log = new_log();
    let names = ["zeta", "alpha", "mid", "beta"];
    let mut sys = ActorSystem::create();
    for n in names.iter() {
        sys.createActor(String::from(*n), Script::new(&log)).unwrap();
    }
    assert_eq!(sys.actorCount(), 4);
    assert_eq!(sys.getRegistry().len(), 4);
    for (i, n) in names.iter().enumerate() {
        let path = format!("/{}", n);
        let actor = sys.getActor(i);
        assert_eq!(actor.inner.actorPath.0, path);
        assert_eq!(actor.inner.name, *n);
        let found = sys.getRegistry().resolve(&ActorPath::from(&path)).unwrap();
        assert_eq!(found, actor.getActorRef());
    }
}

#[test]
fn create_actor_returns_its_handle() {
    let log = new_log();
    let mut sys = ActorSystem::create();
    let r0 = sys.createActor(String::from("one"), Script::new(&log)).unwrap();
    let r1 = sys.createActor(String::from("two"), Script::new(&log)).unwrap();
    assert_ne!(r0, r1);
    assert_eq!(sys.getActor(0).getActorRef(), r0);
    assert_eq!(sys.getActor(1).getActorRef(), r1);
    assert_eq!(sys.getActor(1).inner.state, ActorState::Created);
}

#[test]
fn duplicate_actor_name_is_refused() {
    let log = new_log();
    let mut sys = ActorSystem::create();
    let first = sys.createActor(String::from("same"), Script::new(&log)).unwrap();
    let again = sys.createActor(String::from("same"), Script::new(&log));
    assert_eq!(again, Err(CreateError::DuplicateName));
    assert_eq!(sys.actorCount(), 1);
    assert_eq!(sys.getRegistry().len(), 1);
    assert_eq!(sys.getRegistry().resolve(&ActorPath::from("/same")), Some(first));
}

#[test]
fn registry_refuses_second_binding() {
    let log = new_log();
    let mut sys = ActorSystem::create();
    let r0 = sys.createActor(String::from("x"), Script::new(&log)).unwrap();
    let r1 = sys.createActor(String::from("y"), Script::new(&log)).unwrap();
    let mut reg = Registry::new();
    assert_eq!(reg.len(), 0);
    assert_eq!(reg.register(ActorPath::from("/p"), r0), Ok(()));
    assert_eq!(reg.register(ActorPath::from("/p"), r1), Err(RegisterError::DuplicatePath));
    assert_eq!(reg.resolve(&ActorPath::from("/p")), Some(r0));
    assert_eq!(reg.len(), 1);
}

#[test]
fn resolving_in_empty_registry_gives_none() {
    let reg = Registry::new();
    assert_eq!(reg.resolve(&ActorPath::from("/never")), None);
    assert_eq!(reg.resolve(&ActorPath::from("")), None);
}

#[test]
fn reply_without_sender_fails() {
    let reg = Registry::new();
    let mut ctx = Context::new(None, ActorPath::from("/me"), String::from("me"), &reg);
    assert_eq!(ctx.reply(user("hi")), Err(ReplyError::NoSender));
    assert!(ctx.outbox.is_empty());
    assert_eq!(ctx.getLastSender(), None);
}

#[test]
fn reply_with_sender_queues_exactly_one_envelope() {
    let log = new_log();
    let mut sys = ActorSystem::create();
    let sender = sys.createActor(String::from("asker"), Script::new(&log)).unwrap();
    let mut ctx = Context::new(
        Some(sender),
        ActorPath::from("/me"),
        String::from("me"),
        sys.getRegistry(),
    );
    assert_eq!(ctx.getLastSender(), Some(sender));
    assert_eq!(ctx.reply(user("answer")), Ok(()));
    assert_eq!(ctx.outbox.len(), 1);
    assert_eq!(ctx.outbox[0].target, sender);
    assert_eq!(text_of(&ctx.outbox[0].envelope.0), "answer");
    assert_eq!(ctx.outbox[0].envelope.1 .0, "/me");
}

#[test]
fn send_msg_always_succeeds_and_keeps_order() {
    let log = new_log();
    let mut sys = ActorSystem::create();
    let target = sys.createActor(String::from("t"), Script::new(&log)).unwrap();
    let mut ctx = Context::new(None, ActorPath::from("/me"), String::from("me"), sys.getRegistry());
    assert_eq!(ctx.sendMsg(user("m"), &target), Some(()));
    assert_eq!(ctx.sendMsg(user("m2"), &target), Some(()));
    assert_eq!(ctx.outbox.len(), 2);
    assert_eq!(text_of(&ctx.outbox[0].envelope.0), "m");
    assert_eq!(text_of(&ctx.outbox[1].envelope.0), "m2");
}

#[test]
fn context_reports_name_and_resolves_paths() {
    let log = new_log();
    let mut sys = ActorSystem::create();
    let r = sys.createActor(String::from("known"), Script::new(&log)).unwrap();
    let ctx = Context::new(None, ActorPath::from("/me"), String::from("me"), sys.getRegistry());
    assert_eq!(ctx.getActorName(), "me");
    assert_eq!(ctx.resolvePathStr(String::from("/known")), Some(r));
    assert_eq!(ctx.resolvePathStr(String::from("known")), None);
}

#[test]
fn consecutive_messages_arrive_in_send_order() {
    let log_a = new_log();
    let log_b = new_log();
    let mut sys = ActorSystem::create();
    let mut a = Script::new(&log_a);
    a.on_start = vec![
        (String::from("/b"), String::from("m")),
        (String::from("/b"), String::from("m2")),
    ];
    sys.createActor(String::from("a"), a).unwrap();
    sys.createActor(String::from("b"), Script::new(&log_b)).unwrap();
    sys.start();
    assert!(matches!(sys.dispatch(1), Dispatch::Handled));
    assert!(matches!(sys.dispatch(1), Dispatch::Handled));
    assert_eq!(*log_b.borrow(), vec![String::from("m"), String::from("m2")]);
}

#[test]
fn dispatch_before_start_does_nothing() {
    let log_a = new_log();
    let log_b = new_log();
    let mut sys = ActorSystem::create();
    let mut a = Script::new(&log_a);
    a.on_start = vec![(String::from("/b"), String::from("early"))];
    sys.createActor(String::from("a"), a).unwrap();
    sys.createActor(String::from("b"), Script::new(&log_b)).unwrap();
    assert!(matches!(sys.dispatch(1), Dispatch::NotStarted));
    sys.start();
    assert_eq!(sys.getActor(0).inner.state, ActorState::Running);
    assert_eq!(sys.getActor(1).inner.state, ActorState::Running);
    // a late actor stays unstarted until the next start, which skips the others
    sys.createActor(String::from("late"), Script::new(&log_b)).unwrap();
    assert!(matches!(sys.dispatch(2), Dispatch::NotStarted));
    sys.start();
    assert_eq!(mailbox_texts(&sys, 1).len(), 1);
    assert!(matches!(sys.dispatch(1), Dispatch::Handled));
    assert_eq!(*log_b.borrow(), vec![String::from("early")]);
}

#[test]
fn unknown_sender_still_reaches_behavior() {
    let log_a = new_log();
    let log_b = new_log();
    let mut sys = ActorSystem::create();
    let mut a = Script::new(&log_a);
    a.on_start = vec![(String::from("/b"), String::from("masked"))];
    a.disguise_as = Some(String::from("/ghost"));
    sys.createActor(String::from("a"), a).unwrap();
    sys.createActor(String::from("b"), Script::new(&log_b)).unwrap();
    sys.start();
    match sys.dispatch(1) {
        Dispatch::UnknownSender(p) => assert_eq!(p.0, "/ghost"),
        _ => panic!("expected an unknown sender"),
    }
    assert_eq!(*log_b.borrow(), vec![String::from("masked")]);
}

#[test]
fn actor_path_equality_is_by_text() {
    let p = ActorPath::from("/a");
    assert!(p == ActorPath::from("/a"));
    assert!(p != ActorPath::from("/b"));
    assert!(p.clone() == p);
}
