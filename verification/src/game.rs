//! The game driver: the frame loop as a machine that the host steps.
//!
//! The game decides what happens next and asks its host for what only the
//! host can do: clear and present the surface, poll the platform's events,
//! sleep. The host does it and calls [`Game::step`] again.
//!
//! The game ends in one of two ways. A reason to quit is looked for in the
//! events themselves, before any is mapped to messages: a quit event or the
//! escape key is put to the quit handler first. If the handler says to end,
//! the loop ends at once; if not, the event goes on to the input manager like
//! any other, once. And each message is put to a predicate before it is
//! handled: at the first quit message the loop ends, with that message and
//! those behind it not handled and without an update.

use crate::color::Color;
use crate::event::{Event, QuitReason};
use crate::gameobject::{acted, drawn, scene, sends_behind, Behavior, Call, Scene};
use crate::input::InputManager;
use crate::limiter::{pause_at, FrameLimiter};
use vstd::prelude::*;

verus! {

/// What the game asks its host to do before the next step.
#[derive(Clone, Copy, Debug, PartialEq, Eq, Structural)]
pub enum Request {
    /// Set the background to this color and clear the surface.
    Clear(Color),
    /// Present the surface.
    Present,
    /// Drain the platform events that are queued, without waiting, and hand
    /// them to the next step.
    Poll,
    /// Sleep for so many nanoseconds.
    Sleep(u64),
    /// Nothing more: the loop has ended.
    Stop,
}

/// Where the game stands between two steps: what it has asked for last.
#[derive(Clone, Copy, Debug, PartialEq, Eq, Structural)]
pub enum Stage {
    /// Nothing was asked for yet.
    Created,
    /// The first clear of the surface was asked for.
    Opening,
    /// The first present was asked for; initialization follows it.
    Unveiling,
    /// The clear that begins a frame was asked for.
    Clearing,
    /// The events were asked for.
    Polling,
    /// The clear before rendering was asked for.
    Drawing,
    /// The present after rendering was asked for.
    Showing,
    /// The pause that ends a frame was asked for.
    Pacing,
    /// The loop has ended.
    Terminated,
}

/// The phases of the loop.
#[derive(Clone, Copy, Debug, PartialEq, Eq, Structural)]
pub enum Phase {
    Created,
    Initializing,
    Polling,
    Dispatching,
    Updating,
    Rendering,
    Terminated,
}

impl Stage {
    /// The phase of the loop that the stage belongs to. Dispatching and
    /// updating happen within the step that takes the events, so no stage
    /// between two steps belongs to them.
    pub open spec fn phase_of(self) -> Phase {
        match self {
            Stage::Created => Phase::Created,
            Stage::Opening | Stage::Unveiling => Phase::Initializing,
            Stage::Clearing | Stage::Polling => Phase::Polling,
            Stage::Drawing | Stage::Showing | Stage::Pacing => Phase::Rendering,
            Stage::Terminated => Phase::Terminated,
        }
    }

    /// The phase of the loop that the stage belongs to.
    pub fn phase(self) -> (phase: Phase)
        ensures
            phase == self.phase_of(),
    {
        match self {
            Stage::Created => Phase::Created,
            Stage::Opening | Stage::Unveiling => Phase::Initializing,
            Stage::Clearing | Stage::Polling => Phase::Polling,
            Stage::Drawing | Stage::Showing | Stage::Pacing => Phase::Rendering,
            Stage::Terminated => Phase::Terminated,
        }
    }
}

/// The input manager was handed `event` with an empty queue to push to, and
/// left `produced` in it.
pub open spec fn mapped<M, I: InputManager<M>>(manager: I, event: Event, produced: Seq<M>) -> bool {
    manager.maps(event, Seq::empty(), produced)
}

/// What a handed-on event did: the quit handler, if the event carries a
/// reason to quit, said not to end; the input manager was then handed the
/// event, once, and what it produced went behind what the queue held.
pub open spec fn passed<M, I: InputManager<M>, F: Fn(QuitReason) -> bool>(
    manager: I,
    on_quit: F,
    event: Event,
    queue: Seq<M>,
    queue_after: Seq<M>,
) -> bool {
    &&& event.quit_reason() matches Some(reason) ==> call_ensures(on_quit, (reason,), false)
    &&& exists|produced: Seq<M>| #[trigger]
        mapped(manager, event, produced) && queue_after == queue + produced
}

/// Every event of `events` was handed on, one after the other in their
/// order, as [`passed`] says.
pub open spec fn forwarded<M, I: InputManager<M>, F: Fn(QuitReason) -> bool>(
    manager: I,
    on_quit: F,
    events: Seq<Event>,
    queue: Seq<M>,
    queue_after: Seq<M>,
) -> bool
    decreases events.len(),
{
    if events.len() == 0 {
        queue_after == queue
    } else {
        exists|mid: Seq<M>|
            {
                &&& forwarded(manager, on_quit, events.drop_last(), queue, mid)
                &&& #[trigger] passed(manager, on_quit, events.last(), mid, queue_after)
            }
    }
}

/// The quit handler said to end at the event `events[at]`: the events before
/// it were handed on, and it was not.
pub open spec fn ended_at<M, I: InputManager<M>, F: Fn(QuitReason) -> bool>(
    manager: I,
    on_quit: F,
    events: Seq<Event>,
    queue: Seq<M>,
    queue_after: Seq<M>,
    at: int,
) -> bool {
    &&& 0 <= at < events.len()
    &&& forwarded(manager, on_quit, events.take(at), queue, queue_after)
    &&& events[at].quit_reason() matches Some(reason) && call_ensures(on_quit, (reason,), true)
}

/// What taking the events of one poll does. With `stop`, the quit handler
/// said to end at one of them: the events before it were handed on, and
/// neither it nor any after it was. Without, every event was handed on.
pub open spec fn pumped<M, I: InputManager<M>, F: Fn(QuitReason) -> bool>(
    manager: I,
    on_quit: F,
    events: Seq<Event>,
    queue: Seq<M>,
    queue_after: Seq<M>,
    stop: bool,
) -> bool {
    if stop {
        exists|at: int| #[trigger] ended_at(manager, on_quit, events, queue, queue_after, at)
    } else {
        forwarded(manager, on_quit, events, queue, queue_after)
    }
}

/// The behavior has handled every message of `messages`, one after the other
/// in their order, each from the scene as the one before left it.
pub open spec fn dispatched<S, B: Behavior<S>>(
    pre: Scene<S, B>,
    messages: Seq<B::Message>,
    post: Scene<S, B>,
) -> bool
    decreases messages.len(),
{
    if messages.len() == 0 {
        post == pre
    } else {
        exists|mid: Scene<S, B>|
            {
                &&& dispatched(pre, messages.drop_last(), mid)
                &&& #[trigger] acted(mid, Call::Handle(messages.last()), post)
            }
    }
}

/// Takes the events of one poll, in their order. An event that carries a
/// reason to quit is put to `on_quit` first; if that says to end, the result
/// is `true` and neither this event nor any after it is looked at further.
/// Every event at which the game goes on is handed to `manager`, and the
/// messages that the manager pushes for it are put behind those in `queue`.
pub fn pump<M, I, F>(manager: &I, on_quit: &F, events: &Vec<Event>, queue: &mut Vec<M>) -> (stop:
    bool) where I: InputManager<M>, F: Fn(QuitReason) -> bool
    requires
        forall|reason: QuitReason| call_requires(*on_quit, (reason,)),
    ensures
        pumped(*manager, *on_quit, events@, old(queue)@, final(queue)@, stop),
{
    let n = events.len();
    let mut i: usize = 0;
    while i < n
        invariant
            i <= n,
            n == events@.len(),
            forall|reason: QuitReason| call_requires(*on_quit, (reason,)),
            forwarded(*manager, *on_quit, events@.take(i as int), old(queue)@, queue@),
        decreases n - i,
    {
        let event = &events[i];
        match event.classify() {
            Some(reason) => {
                if on_quit(reason) {
                    proof {
                        assert(ended_at(
                            *manager,
                            *on_quit,
                            events@,
                            old(queue)@,
                            queue@,
                            i as int,
                        ));
                    }
                    return true;
                }
            },
            None => {},
        }
        let ghost mid = queue@;
        let mut produced: Vec<M> = Vec::new();
        manager.handle(event, &mut produced);
        let ghost added = produced@;
        queue.append(&mut produced);
        proof {
            let upto = events@.take(i + 1);
            assert(upto.drop_last() == events@.take(i as int));
            assert(upto.last() == events@[i as int]);
            assert(mapped(*manager, upto.last(), added));
            assert(passed(*manager, *on_quit, upto.last(), mid, queue@));
        }
        i += 1;
    }
    proof {
        assert(events@.take(n as int) == events@);
    }
    false
}

/// None of the first `upto` messages is one at which the game is to end.
pub open spec fn none_quits<M, Q: Fn(&M) -> bool>(
    is_quit_message: Q,
    messages: Seq<M>,
    upto: int,
) -> bool {
    forall|i: int| 0 <= i < upto ==> call_ensures(is_quit_message, (&#[trigger] messages[i],), false)
}

/// The message at `at` is one at which the game is to end.
pub open spec fn quits_at<M, Q: Fn(&M) -> bool>(
    is_quit_message: Q,
    messages: Seq<M>,
    at: int,
) -> bool {
    0 <= at < messages.len() && call_ensures(is_quit_message, (&messages[at],), true)
}

/// The first `handled` messages were put to `is_quit_message`, which said of
/// none to end, and were handled, each from the scene as the one before left
/// it.
pub open spec fn sifted<S, B: Behavior<S>, Q: Fn(&B::Message) -> bool>(
    pre: Scene<S, B>,
    messages: Seq<B::Message>,
    is_quit_message: Q,
    post: Scene<S, B>,
    handled: int,
) -> bool {
    &&& 0 <= handled <= messages.len()
    &&& dispatched(pre, messages.take(handled), post)
    &&& none_quits(is_quit_message, messages, handled)
}

/// What a dispatch does. Each message is put to `is_quit_message` before it
/// is handled. With `stop`, that said to end at one of them: the messages
/// before it were handled, and neither it nor any after it was. Without,
/// every message was handled.
pub open spec fn dispatched_until<S, B: Behavior<S>, Q: Fn(&B::Message) -> bool>(
    pre: Scene<S, B>,
    messages: Seq<B::Message>,
    is_quit_message: Q,
    post: Scene<S, B>,
    stop: bool,
) -> bool {
    exists|handled: int|
        {
            &&& #[trigger] sifted(pre, messages, is_quit_message, post, handled)
            &&& stop ==> quits_at(is_quit_message, messages, handled)
            &&& !stop ==> handled == messages.len()
        }
}

/// Lets the behavior handle the messages, in their order, until one is a
/// quit message. Each message is put to `is_quit_message` first; at the first
/// of which that holds the result is `true`, and neither this message nor any
/// after it is handled. What the behavior sends goes to `queue`.
pub fn dispatch<S, B: Behavior<S>, Q: Fn(&B::Message) -> bool>(
    behavior: &mut B,
    state: &mut S,
    messages: Vec<B::Message>,
    queue: &mut Vec<B::Message>,
    is_quit_message: &Q,
) -> (stop: bool)
    requires
        forall|m: B::Message| call_requires(*is_quit_message, (&m,)),
    ensures
        dispatched_until(
            scene(*old(behavior), *old(state), old(queue)@),
            messages@,
            *is_quit_message,
            scene(*final(behavior), *final(state), final(queue)@),
            stop,
        ),
{
    let ghost all = messages@;
    let ghost pre = scene(*behavior, *state, queue@);
    for message in it: messages
        invariant
            it.seq() == all,
            all == messages@,
            pre == scene(*old(behavior), *old(state), old(queue)@),
            forall|m: B::Message| call_requires(*is_quit_message, (&m,)),
            sifted(pre, all, *is_quit_message, scene(*behavior, *state, queue@), it.index() as int),
    {
        if is_quit_message(&message) {
            proof {
                assert(all[it.index() as int] == message);
                assert(quits_at(*is_quit_message, all, it.index() as int));
                assert(sifted(
                    pre,
                    all,
                    *is_quit_message,
                    scene(*behavior, *state, queue@),
                    it.index() as int,
                ));
            }
            return true;
        }
        let ghost mid = scene(*behavior, *state, queue@);
        behavior.handle(state, message, queue);
        proof {
            let upto = all.take(it.index() + 1);
            assert(upto.drop_last() == all.take(it.index() as int));
            assert(upto.last() == message);
            assert(acted(mid, Call::Handle(upto.last()), scene(*behavior, *state, queue@)));
        }
    }
    proof {
        assert(sifted(
            pre,
            all,
            *is_quit_message,
            scene(*behavior, *state, queue@),
            all.len() as int,
        ));
    }
    false
}

/// What the game works on besides its own queue: the root behavior, the game
/// state and the surface.
pub ghost struct World<S, B: Behavior<S>> {
    pub behavior: B,
    pub state: S,
    pub surface: B::Surface,
}

/// The world made of `behavior`, `state` and `surface`.
pub open spec fn world<S, B: Behavior<S>>(behavior: B, state: S, surface: B::Surface) -> World<
    S,
    B,
> {
    World { behavior, state, surface }
}

/// A game as contracts see it.
pub ghost struct GameView<M> {
    /// Where the game stands.
    pub stage: Stage,
    /// The front queue: the messages that the next dispatch handles.
    pub front: Seq<M>,
    /// The frame limiter.
    pub limiter: FrameLimiter,
    /// The color that the surface is cleared to.
    pub clear_color: Color,
}

/// What the step that takes the events does while the game goes on: the
/// behavior handles every message of `inbox` in order, sending to a back
/// queue that starts empty; the back queue then becomes the front queue, and
/// the behavior updates, sending to that. So `front_after` holds, for the next
/// frame, what handling sent and behind it what updating sent.
pub open spec fn framed<S, B: Behavior<S>>(
    before: World<S, B>,
    inbox: Seq<B::Message>,
    after: World<S, B>,
    front_after: Seq<B::Message>,
) -> bool {
    &&& after.surface == before.surface
    &&& exists|mid: Scene<S, B>|
        {
            &&& #[trigger] dispatched(
                scene(before.behavior, before.state, Seq::empty()),
                inbox,
                mid,
            )
            &&& acted(mid, Call::Update, scene(after.behavior, after.state, front_after))
        }
}

/// What the step that takes the events does where a message ends the game:
/// the behavior handles the messages of `inbox` in order, sending to a back
/// queue that starts empty, up to the first at which `is_quit_message` says to
/// end. That message and those behind it are not handled, and the behavior
/// does not update. `queue_after` holds what handling sent.
pub open spec fn ended_in_dispatch<S, B: Behavior<S>, Q: Fn(&B::Message) -> bool>(
    before: World<S, B>,
    inbox: Seq<B::Message>,
    is_quit_message: Q,
    after: World<S, B>,
    queue_after: Seq<B::Message>,
) -> bool {
    &&& after.surface == before.surface
    &&& dispatched_until(
        scene(before.behavior, before.state, Seq::empty()),
        inbox,
        is_quit_message,
        scene(after.behavior, after.state, queue_after),
        true,
    )
}

/// What the step that takes the events does once the events are taken and
/// `inbox` is the front queue with their messages. With `stop`, the quit
/// handler said to end at an event: the game has ended and nothing was
/// handled. Else the messages are dispatched: the game ends where
/// `is_quit_message` holds of one of them, as [`ended_in_dispatch`] says, and
/// else every message is handled and the behavior updates, as [`framed`]
/// says, and the game asks for the clear before rendering.
pub open spec fn polled<S, B: Behavior<S>, Q: Fn(&B::Message) -> bool>(
    pre: GameView<B::Message>,
    before: World<S, B>,
    inbox: Seq<B::Message>,
    stop: bool,
    is_quit_message: Q,
    post: GameView<B::Message>,
    after: World<S, B>,
    request: Request,
) -> bool {
    if stop {
        &&& request == Request::Stop
        &&& post.stage == Stage::Terminated
        &&& post.front == inbox
        &&& after == before
    } else if request == Request::Stop {
        &&& post.stage == Stage::Terminated
        &&& ended_in_dispatch(before, inbox, is_quit_message, after, post.front)
    } else {
        &&& request == Request::Clear(pre.clear_color)
        &&& post.stage == Stage::Drawing
        &&& none_quits(is_quit_message, inbox, inbox.len() as int)
        &&& framed(before, inbox, after, post.front)
    }
}

/// What one step does, stage by stage: where the game stood and what it
/// worked on (`pre`, `before`), what the host handed in (`now`, `events`), and
/// where the game stands then (`post`, `after`) with what it asks for
/// (`request`).
pub open spec fn stepped<
    S,
    B: Behavior<S>,
    I: InputManager<B::Message>,
    F: Fn(QuitReason) -> bool,
    Q: Fn(&B::Message) -> bool,
>(
    pre: GameView<B::Message>,
    before: World<S, B>,
    now: u64,
    events: Seq<Event>,
    manager: I,
    on_quit: F,
    is_quit_message: Q,
    post: GameView<B::Message>,
    after: World<S, B>,
    request: Request,
) -> bool {
    match pre.stage {
        Stage::Created => {
            &&& post == GameView { stage: Stage::Opening, ..pre }
            &&& after == before
            &&& request == Request::Clear(pre.clear_color)
        },
        Stage::Opening => {
            &&& post == GameView { stage: Stage::Unveiling, ..pre }
            &&& after == before
            &&& request == Request::Present
        },
        Stage::Unveiling => {
            &&& post.stage == Stage::Polling
            &&& post.limiter == pre.limiter.ticked(now)
            &&& post.clear_color == pre.clear_color
            &&& after.surface == before.surface
            &&& acted(
                scene(before.behavior, before.state, pre.front),
                Call::Initialize,
                scene(after.behavior, after.state, post.front),
            )
            &&& request == Request::Poll
        },
        Stage::Clearing => {
            &&& post == GameView { stage: Stage::Polling, ..pre }
            &&& after == before
            &&& request == Request::Poll
        },
        Stage::Polling => {
            &&& post.limiter == pre.limiter
            &&& post.clear_color == pre.clear_color
            &&& exists|inbox: Seq<B::Message>, stop: bool|
                {
                    &&& #[trigger] pumped(manager, on_quit, events, pre.front, inbox, stop)
                    &&& polled(pre, before, inbox, stop, is_quit_message, post, after, request)
                }
        },
        Stage::Drawing => {
            &&& post == GameView { stage: Stage::Showing, ..pre }
            &&& after.state == before.state
            &&& drawn(
                before.behavior,
                before.state,
                before.surface,
                after.behavior,
                after.surface,
            )
            &&& request == Request::Present
        },
        Stage::Showing => {
            &&& post == GameView { stage: Stage::Pacing, ..pre }
            &&& after == before
            &&& request matches Request::Sleep(pause)
            &&& pause == pause_at(pre.limiter.frame_length(), pre.limiter.last_tick(), now)
        },
        Stage::Pacing => {
            &&& post == GameView {
                stage: Stage::Clearing,
                limiter: pre.limiter.ticked(now),
                ..pre
            }
            &&& after == before
            &&& request == Request::Clear(pre.clear_color)
        },
        Stage::Terminated => {
            &&& post == pre
            &&& after == before
            &&& request == Request::Stop
        },
    }
}

/// The state needed for a game: the frame limiter, the color to clear to,
/// the front queue of messages, and where the loop stands.
pub struct Game<M> {
    limiter: FrameLimiter,
    clear_color: Color,
    front: Vec<M>,
    stage: Stage,
}

impl<M> View for Game<M> {
    type V = GameView<M>;

    closed spec fn view(&self) -> GameView<M> {
        GameView {
            stage: self.stage,
            front: self.front@,
            limiter: self.limiter,
            clear_color: self.clear_color,
        }
    }
}

impl<M> Game<M> {
    /// Creates a new game of `fps` frames per second that clears to white.
    /// `now` is what the host's clock reads.
    pub fn new(fps: u32, now: u64) -> (game: Self)
        requires
            fps > 0,
        ensures
            game@.stage == Stage::Created,
            game@.front == Seq::<M>::empty(),
            game@.limiter.max_fps() == fps,
            game@.limiter.frame_length() == crate::limiter::NANOS_PER_SECOND / fps,
            game@.limiter.last_tick() == now,
            game@.clear_color == Color(0xff, 0xff, 0xff, 0xff),
    {
        Game::with_clear_color(Color(0xff, 0xff, 0xff, 0xff), fps, now)
    }

    /// Creates a new game of `fps` frames per second that clears to `color`.
    /// `now` is what the host's clock reads.
    pub fn with_clear_color(color: Color, fps: u32, now: u64) -> (game: Self)
        requires
            fps > 0,
        ensures
            game@.stage == Stage::Created,
            game@.front == Seq::<M>::empty(),
            game@.limiter.max_fps() == fps,
            game@.limiter.frame_length() == crate::limiter::NANOS_PER_SECOND / fps,
            game@.limiter.last_tick() == now,
            game@.clear_color == color,
    {
        Game {
            limiter: FrameLimiter::new(fps, now),
            clear_color: color,
            front: Vec::new(),
            stage: Stage::Created,
        }
    }

    /// Where the game stands.
    pub fn stage(&self) -> (stage: Stage)
        ensures
            stage == self@.stage,
    {
        self.stage
    }

    /// The color that the surface is cleared to.
    pub fn clear_color(&self) -> (color: Color)
        ensures
            color == self@.clear_color,
    {
        self.clear_color
    }

    /// Makes the next step of the loop and says what the host is to do before
    /// the step after it.
    ///
    /// `now` is what the host's clock reads. `events` are the events that the
    /// host has drained in answer to [`Request::Poll`]; at every other stage
    /// they are not looked at. What each stage does is [`stepped`].
    pub fn step<S, B, I, F, Q>(
        &mut self,
        now: u64,
        events: Vec<Event>,
        state: &mut S,
        manager: &I,
        behavior: &mut B,
        surface: &mut B::Surface,
        on_quit: &F,
        is_quit_message: &Q,
    ) -> (request: Request) where
        B: Behavior<S, Message = M>,
        I: InputManager<M>,
        F: Fn(QuitReason) -> bool,
        Q: Fn(&M) -> bool,

        requires
            forall|reason: QuitReason| call_requires(*on_quit, (reason,)),
            forall|m: M| call_requires(*is_quit_message, (&m,)),
        ensures
            stepped(
                old(self)@,
                world(*old(behavior), *old(state), *old(surface)),
                now,
                events@,
                *manager,
                *on_quit,
                *is_quit_message,
                final(self)@,
                world(*final(behavior), *final(state), *final(surface)),
                request,
            ),
    {
        let ghost pre = self@;
        let ghost before = world(*behavior, *state, *surface);
        match self.stage {
            Stage::Created => {
                self.stage = Stage::Opening;
                Request::Clear(self.clear_color)
            },
            Stage::Opening => {
                self.stage = Stage::Unveiling;
                Request::Present
            },
            Stage::Unveiling => {
                behavior.initialize(state, &mut self.front);
                self.limiter.reset(now);
                self.stage = Stage::Polling;
                Request::Poll
            },
            Stage::Clearing => {
                self.stage = Stage::Polling;
                Request::Poll
            },
            Stage::Polling => {
                let stop = pump(manager, on_quit, &events, &mut self.front);
                let ghost inbox = self.front@;
                assert(pumped(*manager, *on_quit, events@, pre.front, inbox, stop));
                if stop {
                    self.stage = Stage::Terminated;
                    Request::Stop
                } else {
                    let mut front: Vec<M> = Vec::new();
                    core::mem::swap(&mut self.front, &mut front);
                    let mut back: Vec<M> = Vec::new();
                    let quit = dispatch(behavior, state, front, &mut back, is_quit_message);
                    let ghost mid = scene(*behavior, *state, back@);
                    self.front = back;
                    if quit {
                        self.stage = Stage::Terminated;
                        Request::Stop
                    } else {
                        behavior.update(state, &mut self.front);
                        self.stage = Stage::Drawing;
                        assert(framed(
                            before,
                            inbox,
                            world(*behavior, *state, *surface),
                            self@.front,
                        ) && none_quits(*is_quit_message, inbox, inbox.len() as int)) by {
                            let start = scene(
                                before.behavior,
                                before.state,
                                Seq::<M>::empty(),
                            );
                            let handled = choose|handled: int|
                                {
                                    &&& #[trigger] sifted(
                                        start,
                                        inbox,
                                        *is_quit_message,
                                        mid,
                                        handled,
                                    )
                                    &&& handled == inbox.len()
                                };
                            assert(inbox.take(handled) =~= inbox);
                            assert(dispatched(start, inbox, mid));
                        }
                        Request::Clear(self.clear_color)
                    }
                }
            },
            Stage::Drawing => {
                behavior.render(state, surface);
                self.stage = Stage::Showing;
                Request::Present
            },
            Stage::Showing => {
                let pause = self.limiter.limit(now);
                self.stage = Stage::Pacing;
                Request::Sleep(pause)
            },
            Stage::Pacing => {
                self.limiter.reset(now);
                self.stage = Stage::Clearing;
                Request::Clear(self.clear_color)
            },
            Stage::Terminated => Request::Stop,
        }
    }
}

/// The stage that follows `stage` while the game goes on.
pub open spec fn next_stage(stage: Stage) -> Stage {
    match stage {
        Stage::Created => Stage::Opening,
        Stage::Opening => Stage::Unveiling,
        Stage::Unveiling => Stage::Polling,
        Stage::Clearing => Stage::Polling,
        Stage::Polling => Stage::Drawing,
        Stage::Drawing => Stage::Showing,
        Stage::Showing => Stage::Pacing,
        Stage::Pacing => Stage::Clearing,
        Stage::Terminated => Stage::Terminated,
    }
}

/// Whether `request` is what a game at `stage` waits for.
pub open spec fn awaited(stage: Stage, request: Request) -> bool {
    match stage {
        Stage::Created => false,
        Stage::Opening | Stage::Clearing | Stage::Drawing => request is Clear,
        Stage::Unveiling | Stage::Showing => request is Present,
        Stage::Polling => request is Poll,
        Stage::Pacing => request is Sleep,
        Stage::Terminated => request is Stop,
    }
}

/// The stages follow the loop. Every step leads to the stage that comes
/// next, but for the step that takes the events: it ends the game where the
/// quit handler said to end at one of them, or where one of the messages of
/// the frame is a quit message, and only there. A game that has ended stays
/// ended. What the game asks for is what its new stage waits for. It never
/// changes the color it clears to or the length of its frames, and a frame
/// begins at `now` with the step after the first present and with the step
/// after every pause, and at no other.
pub proof fn lemma_stages_follow_the_loop<
    S,
    B: Behavior<S>,
    I: InputManager<B::Message>,
    F: Fn(QuitReason) -> bool,
    Q: Fn(&B::Message) -> bool,
>(
    pre: GameView<B::Message>,
    before: World<S, B>,
    now: u64,
    events: Seq<Event>,
    manager: I,
    on_quit: F,
    is_quit_message: Q,
    post: GameView<B::Message>,
    after: World<S, B>,
    request: Request,
)
    requires
        stepped(
            pre,
            before,
            now,
            events,
            manager,
            on_quit,
            is_quit_message,
            post,
            after,
            request,
        ),
    ensures
        awaited(post.stage, request),
        post.clear_color == pre.clear_color,
        post.limiter.frame_length() == pre.limiter.frame_length(),
        post.limiter.max_fps() == pre.limiter.max_fps(),
        post.limiter.last_tick() == if pre.stage == Stage::Unveiling || pre.stage
            == Stage::Pacing {
            now
        } else {
            pre.limiter.last_tick()
        },
        post.stage == next_stage(pre.stage) || (pre.stage == Stage::Polling && post.stage
            == Stage::Terminated),
        pre.stage == Stage::Polling && post.stage == Stage::Terminated ==> {
            ||| exists|at: int|
                0 <= at < events.len() && #[trigger] events[at].quit_reason() is Some
                    && call_ensures(on_quit, (events[at].quit_reason()->0,), true)
            ||| exists|inbox: Seq<B::Message>, at: int|
                pumped(manager, on_quit, events, pre.front, inbox, false) && #[trigger] quits_at(
                    is_quit_message,
                    inbox,
                    at,
                )
        },
{
    pre.limiter.lemma_ticked(now);
    if pre.stage == Stage::Polling {
        let (inbox, stop) = choose|inbox: Seq<B::Message>, stop: bool|
            {
                &&& #[trigger] pumped(manager, on_quit, events, pre.front, inbox, stop)
                &&& polled(pre, before, inbox, stop, is_quit_message, post, after, request)
            };
        if stop {
            let at = choose|at: int| #[trigger]
                ended_at(manager, on_quit, events, pre.front, inbox, at);
            assert(events[at].quit_reason() is Some);
        } else if request == Request::Stop {
            let start = scene(before.behavior, before.state, Seq::<B::Message>::empty());
            let end = scene(after.behavior, after.state, post.front);
            let handled = choose|handled: int|
                {
                    &&& #[trigger] sifted(start, inbox, is_quit_message, end, handled)
                    &&& handled < inbox.len() && call_ensures(
                        is_quit_message,
                        (&inbox[handled],),
                        true,
                    )
                };
            assert(pumped(manager, on_quit, events, pre.front, inbox, false) && quits_at(
                is_quit_message,
                inbox,
                handled,
            ));
        }
    }
}

/// A behavior whose `update` sends exactly one message.
pub open spec fn update_sends_one<S, B: Behavior<S>>() -> bool {
    forall|pre: Scene<S, B>, post: Scene<S, B>| #[trigger]
        acted(pre, Call::Update, post) ==> exists|message: B::Message|
            post.queue == pre.queue.push(message)
}

/// Handling a queue of one message is one call of `handle`, with that
/// message.
pub proof fn lemma_dispatch_one<S, B: Behavior<S>>(
    pre: Scene<S, B>,
    message: B::Message,
    post: Scene<S, B>,
)
    ensures
        dispatched(pre, seq![message], post) <==> acted(pre, Call::Handle(message), post),
{
    let messages = seq![message];
    assert(messages.drop_last() =~= Seq::<B::Message>::empty());
    assert(messages.last() == message);
    if dispatched(pre, messages, post) {
        let mid = choose|mid: Scene<S, B>|
            {
                &&& dispatched(pre, messages.drop_last(), mid)
                &&& #[trigger] acted(mid, Call::Handle(messages.last()), post)
            };
        assert(mid == pre);
    }
    if acted(pre, Call::Handle(message), post) {
        assert(dispatched(pre, messages.drop_last(), pre));
        assert(acted(pre, Call::Handle(messages.last()), post));
    }
}

/// Handling a queue is handling its first message and then, from where that
/// ended, the rest: no message is left out.
pub proof fn lemma_dispatch_first<S, B: Behavior<S>>(
    pre: Scene<S, B>,
    messages: Seq<B::Message>,
    post: Scene<S, B>,
)
    requires
        messages.len() > 0,
        dispatched(pre, messages, post),
    ensures
        exists|mid: Scene<S, B>| #[trigger]
            acted(pre, Call::Handle(messages[0]), mid) && dispatched(
                mid,
                messages.subrange(1, messages.len() as int),
                post,
            ),
{
    let first = seq![messages[0]];
    let rest = messages.subrange(1, messages.len() as int);
    assert(first + rest =~= messages);
    lemma_dispatch_in_order(pre, first, rest, post);
    let mid = choose|mid: Scene<S, B>| #[trigger]
        dispatched(pre, first, mid) && dispatched(mid, rest, post);
    lemma_dispatch_one(pre, messages[0], mid);
}

/// Messages are handled in the order of the queue: handling a queue is
/// handling its front part and then, from where that ended, the rest.
pub proof fn lemma_dispatch_in_order<S, B: Behavior<S>>(
    pre: Scene<S, B>,
    first: Seq<B::Message>,
    second: Seq<B::Message>,
    post: Scene<S, B>,
)
    requires
        dispatched(pre, first + second, post),
    ensures
        exists|mid: Scene<S, B>| #[trigger]
            dispatched(pre, first, mid) && dispatched(mid, second, post),
    decreases second.len(),
{
    if second.len() == 0 {
        assert(first + second == first);
        assert(dispatched(pre, first, post) && dispatched(post, second, post));
    } else {
        let all = first + second;
        assert(all.drop_last() == first + second.drop_last());
        assert(all.last() == second.last());
        let last = choose|last: Scene<S, B>|
            {
                &&& dispatched(pre, all.drop_last(), last)
                &&& #[trigger] acted(last, Call::Handle(all.last()), post)
            };
        lemma_dispatch_in_order(pre, first, second.drop_last(), last);
        let mid = choose|mid: Scene<S, B>| #[trigger]
            dispatched(pre, first, mid) && dispatched(mid, second.drop_last(), last);
        assert(acted(last, Call::Handle(second.last()), post));
        assert(dispatched(pre, first, mid) && dispatched(mid, second, post));
    }
}

/// With a behavior that only ever sends, handling messages leaves what the
/// queue held in front.
pub proof fn lemma_dispatch_sends_behind<S, B: Behavior<S>>(
    pre: Scene<S, B>,
    messages: Seq<B::Message>,
    post: Scene<S, B>,
)
    requires
        sends_behind::<S, B>(),
        dispatched(pre, messages, post),
    ensures
        pre.queue.is_prefix_of(post.queue),
    decreases messages.len(),
{
    if messages.len() > 0 {
        let mid = choose|mid: Scene<S, B>|
            {
                &&& dispatched(pre, messages.drop_last(), mid)
                &&& #[trigger] acted(mid, Call::Handle(messages.last()), post)
            };
        lemma_dispatch_sends_behind(pre, messages.drop_last(), mid);
    }
}

/// The back queue keeps the order of the calls: with a behavior that only
/// ever sends, what the handling of earlier messages sent stands in the queue
/// before what the handling of later messages sent.
pub proof fn lemma_dispatch_keeps_order<S, B: Behavior<S>>(
    pre: Scene<S, B>,
    first: Seq<B::Message>,
    second: Seq<B::Message>,
    post: Scene<S, B>,
)
    requires
        sends_behind::<S, B>(),
        dispatched(pre, first + second, post),
    ensures
        exists|mid: Scene<S, B>|
            {
                &&& #[trigger] dispatched(pre, first, mid)
                &&& dispatched(mid, second, post)
                &&& pre.queue.is_prefix_of(mid.queue)
                &&& mid.queue.is_prefix_of(post.queue)
            },
{
    lemma_dispatch_in_order(pre, first, second, post);
    let mid = choose|mid: Scene<S, B>| #[trigger]
        dispatched(pre, first, mid) && dispatched(mid, second, post);
    lemma_dispatch_sends_behind(pre, first, mid);
    lemma_dispatch_sends_behind(mid, second, post);
}

/// A poll that finds no events neither ends the game nor touches the queue.
pub proof fn lemma_pump_without_events<M, I: InputManager<M>, F: Fn(QuitReason) -> bool>(
    manager: I,
    on_quit: F,
    queue: Seq<M>,
    queue_after: Seq<M>,
    stop: bool,
)
    requires
        pumped(manager, on_quit, Seq::<Event>::empty(), queue, queue_after, stop),
    ensures
        !stop,
        queue_after == queue,
{
    if stop {
        let at = choose|at: int| #[trigger]
            ended_at(manager, on_quit, Seq::<Event>::empty(), queue, queue_after, at);
        assert(false);
    }
}

/// Taking events only adds to the queue, whatever the input manager does:
/// the queue afterwards begins with the queue as it was.
pub proof fn lemma_pump_only_adds<M, I: InputManager<M>, F: Fn(QuitReason) -> bool>(
    manager: I,
    on_quit: F,
    events: Seq<Event>,
    queue: Seq<M>,
    queue_after: Seq<M>,
    stop: bool,
)
    requires
        pumped(manager, on_quit, events, queue, queue_after, stop),
    ensures
        queue.is_prefix_of(queue_after),
{
    if stop {
        let at = choose|at: int| #[trigger]
            ended_at(manager, on_quit, events, queue, queue_after, at);
        lemma_forwarding_only_adds(manager, on_quit, events.take(at), queue, queue_after);
    } else {
        lemma_forwarding_only_adds(manager, on_quit, events, queue, queue_after);
    }
}

/// Handing events on only adds to the queue.
pub proof fn lemma_forwarding_only_adds<M, I: InputManager<M>, F: Fn(QuitReason) -> bool>(
    manager: I,
    on_quit: F,
    events: Seq<Event>,
    queue: Seq<M>,
    queue_after: Seq<M>,
)
    requires
        forwarded(manager, on_quit, events, queue, queue_after),
    ensures
        queue.is_prefix_of(queue_after),
    decreases events.len(),
{
    if events.len() > 0 {
        let mid = choose|mid: Seq<M>|
            {
                &&& forwarded(manager, on_quit, events.drop_last(), queue, mid)
                &&& #[trigger] passed(manager, on_quit, events.last(), mid, queue_after)
            };
        lemma_forwarding_only_adds(manager, on_quit, events.drop_last(), queue, mid);
    }
}

/// The quit decision comes first. An event that carries a reason to quit is
/// put to the quit handler before the input manager sees it. If the handler
/// says to end, the game stops and the manager never sees the event: the
/// queue is as it was. If the handler says to go on, the manager is handed
/// the event once.
pub proof fn lemma_quit_is_decided_first<M, I: InputManager<M>, F: Fn(QuitReason) -> bool>(
    manager: I,
    on_quit: F,
    event: Event,
    queue: Seq<M>,
    queue_after: Seq<M>,
    stop: bool,
)
    requires
        event.quit_reason() is Some,
        pumped(manager, on_quit, seq![event], queue, queue_after, stop),
    ensures
        stop ==> call_ensures(on_quit, (event.quit_reason()->0,), true) && queue_after == queue,
        !stop ==> call_ensures(on_quit, (event.quit_reason()->0,), false) && exists|
            produced: Seq<M>,
        | #[trigger] mapped(manager, event, produced) && queue_after == queue + produced,
{
    let events = seq![event];
    if stop {
        let at = choose|at: int| #[trigger]
            ended_at(manager, on_quit, events, queue, queue_after, at);
        assert(at == 0);
        assert(events.take(0).len() == 0);
    } else {
        let mid = choose|mid: Seq<M>|
            {
                &&& forwarded(manager, on_quit, events.drop_last(), queue, mid)
                &&& #[trigger] passed(manager, on_quit, events.last(), mid, queue_after)
            };
        assert(events.drop_last().len() == 0);
        assert(events.last() == event);
    }
}

/// An event that carries no reason to quit goes to the input manager and
/// never ends the game.
pub proof fn lemma_other_events_are_mapped<M, I: InputManager<M>, F: Fn(QuitReason) -> bool>(
    manager: I,
    on_quit: F,
    event: Event,
    queue: Seq<M>,
    queue_after: Seq<M>,
    stop: bool,
)
    requires
        event.quit_reason() is None,
        pumped(manager, on_quit, seq![event], queue, queue_after, stop),
    ensures
        !stop,
        exists|produced: Seq<M>| #[trigger]
            mapped(manager, event, produced) && queue_after == queue + produced,
{
    let events = seq![event];
    if stop {
        let at = choose|at: int| #[trigger]
            ended_at(manager, on_quit, events, queue, queue_after, at);
        assert(at == 0);
        assert(false);
    } else {
        let mid = choose|mid: Seq<M>|
            {
                &&& forwarded(manager, on_quit, events.drop_last(), queue, mid)
                &&& #[trigger] passed(manager, on_quit, events.last(), mid, queue_after)
            };
        assert(events.drop_last().len() == 0);
        assert(events.last() == event);
    }
}

/// What `update` sends waits for the next frame. In a frame, the messages
/// handled are those of the inbox, which stood before `update` ran; with a
/// behavior whose `update` sends exactly one message, that message is the last
/// of the front queue that the frame leaves, behind what handling sent, so
/// that the next frame's dispatch is the first to handle it.
pub proof fn lemma_update_waits_a_frame<S, B: Behavior<S>>(
    before: World<S, B>,
    inbox: Seq<B::Message>,
    after: World<S, B>,
    front_after: Seq<B::Message>,
)
    requires
        update_sends_one::<S, B>(),
        framed(before, inbox, after, front_after),
    ensures
        exists|mid: Scene<S, B>, message: B::Message|
            {
                &&& #[trigger] dispatched(
                    scene(before.behavior, before.state, Seq::empty()),
                    inbox,
                    mid,
                )
                &&& acted(mid, Call::Update, scene(after.behavior, after.state, front_after))
                &&& front_after == #[trigger] mid.queue.push(message)
            },
{
    let mid = choose|mid: Scene<S, B>|
        {
            &&& #[trigger] dispatched(
                scene(before.behavior, before.state, Seq::empty()),
                inbox,
                mid,
            )
            &&& acted(mid, Call::Update, scene(after.behavior, after.state, front_after))
        };
    let post = scene(after.behavior, after.state, front_after);
    assert(acted(mid, Call::Update, post));
    let message = choose|message: B::Message| post.queue == mid.queue.push(message);
    assert(front_after == mid.queue.push(message));
}

/// A frame and the rendering that follows it: the frame handles `inbox` and
/// updates, as [`framed`] says, and the behavior then renders, which reads the
/// state and may change the behavior and the surface.
pub open spec fn turned<S, B: Behavior<S>>(
    before: World<S, B>,
    inbox: Seq<B::Message>,
    after: World<S, B>,
    front_after: Seq<B::Message>,
) -> bool {
    exists|updated: World<S, B>|
        {
            &&& #[trigger] framed(before, inbox, updated, front_after)
            &&& after.state == updated.state
            &&& drawn(
                updated.behavior,
                updated.state,
                updated.surface,
                after.behavior,
                after.surface,
            )
        }
}

/// So many frames without input have passed, one after the other, each with
/// its rendering: each handled the front queue as the frame before it left
/// it, and left the front queue for the next.
pub open spec fn quiet_frames<S, B: Behavior<S>>(
    before: World<S, B>,
    front: Seq<B::Message>,
    frames: nat,
    after: World<S, B>,
    front_after: Seq<B::Message>,
) -> bool
    decreases frames,
{
    if frames == 0 {
        after == before && front_after == front
    } else {
        exists|mid: World<S, B>, mid_front: Seq<B::Message>|
            {
                &&& quiet_frames(before, front, (frames - 1) as nat, mid, mid_front)
                &&& #[trigger] turned(mid, mid_front, after, front_after)
            }
    }
}

/// In any run of frames without input, with a behavior whose `update` sends
/// exactly one message, every frame defers what its `update` sends to the
/// frame after it. The frame numbered `frame` handles the front queue that
/// the frames before it left, which was complete before its own `update`
/// ran; the one message of that `update` is the last of the front queue that
/// it leaves, and that queue is what the next frame handles.
pub proof fn lemma_every_frame_defers_its_update<S, B: Behavior<S>>(
    before: World<S, B>,
    front: Seq<B::Message>,
    frames: nat,
    after: World<S, B>,
    front_after: Seq<B::Message>,
    frame: nat,
)
    requires
        update_sends_one::<S, B>(),
        quiet_frames(before, front, frames, after, front_after),
        1 <= frame <= frames,
    ensures
        exists|
            found: World<S, B>,
            inbox: Seq<B::Message>,
            mid: Scene<S, B>,
            message: B::Message,
            updated: World<S, B>,
            left: World<S, B>,
        |
            {
                &&& quiet_frames(before, front, (frame - 1) as nat, found, inbox)
                &&& #[trigger] dispatched(
                    scene(found.behavior, found.state, Seq::empty()),
                    inbox,
                    mid,
                )
                &&& #[trigger] acted(
                    mid,
                    Call::Update,
                    scene(updated.behavior, updated.state, mid.queue.push(message)),
                )
                &&& left.state == updated.state
                &&& #[trigger] quiet_frames(before, front, frame, left, mid.queue.push(message))
            },
    decreases frames,
{
    let (last, last_front) = choose|last: World<S, B>, last_front: Seq<B::Message>|
        {
            &&& quiet_frames(before, front, (frames - 1) as nat, last, last_front)
            &&& #[trigger] turned(last, last_front, after, front_after)
        };
    if frame == frames {
        let updated = choose|updated: World<S, B>|
            {
                &&& #[trigger] framed(last, last_front, updated, front_after)
                &&& after.state == updated.state
                &&& drawn(
                    updated.behavior,
                    updated.state,
                    updated.surface,
                    after.behavior,
                    after.surface,
                )
            };
        lemma_update_waits_a_frame(last, last_front, updated, front_after);
        let (mid, message) = choose|mid: Scene<S, B>, message: B::Message|
            {
                &&& #[trigger] dispatched(
                    scene(last.behavior, last.state, Seq::empty()),
                    last_front,
                    mid,
                )
                &&& acted(mid, Call::Update, scene(updated.behavior, updated.state, front_after))
                &&& front_after == #[trigger] mid.queue.push(message)
            };
        assert(quiet_frames(before, front, frame, after, mid.queue.push(message)));
        assert(acted(
            mid,
            Call::Update,
            scene(updated.behavior, updated.state, mid.queue.push(message)),
        ));
    } else {
        lemma_every_frame_defers_its_update(
            before,
            front,
            (frames - 1) as nat,
            last,
            last_front,
            frame,
        );
    }
}

/// A frame that finds one message waiting handles it and then updates: one
/// call of `handle` with the message, sending to an empty queue, and from
/// where that ended one call of `update`, which leaves the next front queue.
pub proof fn lemma_frame_of_one_message<S, B: Behavior<S>>(
    before: World<S, B>,
    message: B::Message,
    after: World<S, B>,
    front_after: Seq<B::Message>,
)
    requires
        framed(before, seq![message], after, front_after),
    ensures
        after.surface == before.surface,
        exists|mid: Scene<S, B>|
            {
                &&& #[trigger] acted(
                    scene(before.behavior, before.state, Seq::empty()),
                    Call::Handle(message),
                    mid,
                )
                &&& acted(mid, Call::Update, scene(after.behavior, after.state, front_after))
            },
{
    let start = scene(before.behavior, before.state, Seq::<B::Message>::empty());
    let mid = choose|mid: Scene<S, B>|
        {
            &&& #[trigger] dispatched(start, seq![message], mid)
            &&& acted(mid, Call::Update, scene(after.behavior, after.state, front_after))
        };
    lemma_dispatch_one(start, message, mid);
}

/// A behavior that counts: handling a message adds one to what `count`
/// reads of the state and sends nothing, and updating leaves what `count`
/// reads and sends exactly one message.
pub open spec fn counts<S, B: Behavior<S>>(count: spec_fn(S) -> int) -> bool {
    &&& forall|pre: Scene<S, B>, message: B::Message, post: Scene<S, B>| #[trigger]
        acted(pre, Call::Handle(message), post) ==> count(post.state) == count(pre.state) + 1
            && post.queue == pre.queue
    &&& forall|pre: Scene<S, B>, post: Scene<S, B>| #[trigger]
        acted(pre, Call::Update, post) ==> count(post.state) == count(pre.state)
            && post.queue.len() == pre.queue.len() + 1
}

/// With a behavior that counts and one message waiting, every frame without
/// input counts one: after so many frames the count has grown by their
/// number, and one message waits again. Rendering has no part in it: whatever
/// it does to the behavior and the surface, it leaves the state.
pub proof fn lemma_counting_frames<S, B: Behavior<S>>(
    count: spec_fn(S) -> int,
    before: World<S, B>,
    front: Seq<B::Message>,
    frames: nat,
    after: World<S, B>,
    front_after: Seq<B::Message>,
)
    requires
        counts::<S, B>(count),
        front.len() == 1,
        quiet_frames(before, front, frames, after, front_after),
    ensures
        count(after.state) == count(before.state) + frames,
        front_after.len() == 1,
    decreases frames,
{
    if frames > 0 {
        let (last, last_front) = choose|last: World<S, B>, last_front: Seq<B::Message>|
            {
                &&& quiet_frames(before, front, (frames - 1) as nat, last, last_front)
                &&& #[trigger] turned(last, last_front, after, front_after)
            };
        lemma_counting_frames(count, before, front, (frames - 1) as nat, last, last_front);
        let updated = choose|updated: World<S, B>|
            {
                &&& #[trigger] framed(last, last_front, updated, front_after)
                &&& after.state == updated.state
                &&& drawn(
                    updated.behavior,
                    updated.state,
                    updated.surface,
                    after.behavior,
                    after.surface,
                )
            };
        assert(last_front =~= seq![last_front[0]]);
        lemma_frame_of_one_message(last, last_front[0], updated, front_after);
        let start = scene(last.behavior, last.state, Seq::<B::Message>::empty());
        let mid = choose|mid: Scene<S, B>|
            {
                &&& #[trigger] acted(start, Call::Handle(last_front[0]), mid)
                &&& acted(mid, Call::Update, scene(updated.behavior, updated.state, front_after))
            };
        assert(acted(mid, Call::Update, scene(updated.behavior, updated.state, front_after)));
    }
}

/// The step after the first present initializes: the behavior's `initialize`
/// is called, once, with the front queue to send to, so that what it sends
/// waits in the front queue for the first frame. The frame limiter's first
/// frame begins then, and the game asks for the events.
pub proof fn lemma_initialize_fills_the_first_front<
    S,
    B: Behavior<S>,
    I: InputManager<B::Message>,
    F: Fn(QuitReason) -> bool,
    Q: Fn(&B::Message) -> bool,
>(
    pre: GameView<B::Message>,
    before: World<S, B>,
    now: u64,
    events: Seq<Event>,
    manager: I,
    on_quit: F,
    is_quit_message: Q,
    post: GameView<B::Message>,
    after: World<S, B>,
    request: Request,
)
    requires
        pre.stage == Stage::Unveiling,
        stepped(
            pre,
            before,
            now,
            events,
            manager,
            on_quit,
            is_quit_message,
            post,
            after,
            request,
        ),
    ensures
        request == Request::Poll,
        post.stage == Stage::Polling,
        post.limiter.last_tick() == now,
        after.surface == before.surface,
        acted(
            scene(before.behavior, before.state, pre.front),
            Call::Initialize,
            scene(after.behavior, after.state, post.front),
        ),
{
    pre.limiter.lemma_ticked(now);
}

/// A frame that is not ended handles and updates. The step that takes the
/// events, where it does not stop, puts the messages of the events behind
/// those that waited in the front queue; the behavior then handles every
/// one of them, in order, and updates once.
pub proof fn lemma_frame_handles_and_updates<
    S,
    B: Behavior<S>,
    I: InputManager<B::Message>,
    F: Fn(QuitReason) -> bool,
    Q: Fn(&B::Message) -> bool,
>(
    pre: GameView<B::Message>,
    before: World<S, B>,
    now: u64,
    events: Seq<Event>,
    manager: I,
    on_quit: F,
    is_quit_message: Q,
    post: GameView<B::Message>,
    after: World<S, B>,
    request: Request,
)
    requires
        pre.stage == Stage::Polling,
        request != Request::Stop,
        stepped(
            pre,
            before,
            now,
            events,
            manager,
            on_quit,
            is_quit_message,
            post,
            after,
            request,
        ),
    ensures
        request == Request::Clear(pre.clear_color),
        post.stage == Stage::Drawing,
        exists|inbox: Seq<B::Message>|
            {
                &&& #[trigger] pumped(manager, on_quit, events, pre.front, inbox, false)
                &&& pre.front.is_prefix_of(inbox)
                &&& none_quits(is_quit_message, inbox, inbox.len() as int)
                &&& framed(before, inbox, after, post.front)
            },
{
    let (inbox, stop) = choose|inbox: Seq<B::Message>, stop: bool|
        {
            &&& #[trigger] pumped(manager, on_quit, events, pre.front, inbox, stop)
            &&& polled(pre, before, inbox, stop, is_quit_message, post, after, request)
        };
    lemma_pump_only_adds(manager, on_quit, events, pre.front, inbox, stop);
}

/// A frame without input works on the front queue as the frame before left
/// it. The step that takes an empty poll dispatches the front queue as it
/// stands: it ends the game where one of its messages is a quit message, and
/// else handles them all, updates, and asks for the clear.
pub proof fn lemma_quiet_frame_handles_the_front<
    S,
    B: Behavior<S>,
    I: InputManager<B::Message>,
    F: Fn(QuitReason) -> bool,
    Q: Fn(&B::Message) -> bool,
>(
    pre: GameView<B::Message>,
    before: World<S, B>,
    now: u64,
    manager: I,
    on_quit: F,
    is_quit_message: Q,
    post: GameView<B::Message>,
    after: World<S, B>,
    request: Request,
)
    requires
        pre.stage == Stage::Polling,
        stepped(
            pre,
            before,
            now,
            Seq::<Event>::empty(),
            manager,
            on_quit,
            is_quit_message,
            post,
            after,
            request,
        ),
    ensures
        polled(pre, before, pre.front, false, is_quit_message, post, after, request),
        request != Request::Stop ==> post.stage == Stage::Drawing && framed(
            before,
            pre.front,
            after,
            post.front,
        ),
{
    let (inbox, stop) = choose|inbox: Seq<B::Message>, stop: bool|
        {
            &&& #[trigger] pumped(manager, on_quit, Seq::<Event>::empty(), pre.front, inbox, stop)
            &&& polled(pre, before, inbox, stop, is_quit_message, post, after, request)
        };
    lemma_pump_without_events(manager, on_quit, pre.front, inbox, stop);
}

/// The first quit message ends the game. Where the step that takes the
/// events finds no quit event and `is_quit_message` holds of a message of
/// the frame, the game ends at the first such message: the messages before
/// it are handled, in order; it is not handled, nor any behind it; the
/// behavior does not update, and the game asks to stop.
pub proof fn lemma_first_quit_message_ends_the_game<
    S,
    B: Behavior<S>,
    Q: Fn(&B::Message) -> bool,
>(
    pre: GameView<B::Message>,
    before: World<S, B>,
    inbox: Seq<B::Message>,
    is_quit_message: Q,
    post: GameView<B::Message>,
    after: World<S, B>,
    request: Request,
    at: int,
)
    requires
        polled(pre, before, inbox, false, is_quit_message, post, after, request),
        0 <= at < inbox.len(),
        call_ensures(is_quit_message, (&inbox[at],), true),
        forall|m: B::Message, said: bool, other: bool|
            call_ensures(is_quit_message, (&m,), said) && call_ensures(
                is_quit_message,
                (&m,),
                other,
            ) ==> said == other,
    ensures
        request == Request::Stop,
        post.stage == Stage::Terminated,
        after.surface == before.surface,
        exists|first: int|
            {
                &&& 0 <= first <= at
                &&& #[trigger] sifted(
                    scene(before.behavior, before.state, Seq::empty()),
                    inbox,
                    is_quit_message,
                    scene(after.behavior, after.state, post.front),
                    first,
                )
                &&& call_ensures(is_quit_message, (&inbox[first],), true)
            },
{
    let start = scene(before.behavior, before.state, Seq::<B::Message>::empty());
    let end = scene(after.behavior, after.state, post.front);
    if request != Request::Stop {
        assert(call_ensures(is_quit_message, (&inbox[at],), false));
        assert(false);
    }
    let first = choose|first: int|
        {
            &&& #[trigger] sifted(start, inbox, is_quit_message, end, first)
            &&& first < inbox.len() && call_ensures(is_quit_message, (&inbox[first],), true)
        };
    if first > at {
        assert(call_ensures(is_quit_message, (&inbox[at],), false));
        assert(false);
    }
}

/// The steps of a frame make a frame. From the step that takes an empty poll
/// and does not end the game, through the steps that render, pace and clear,
/// to the next poll: the front queue as it stood was handled, the behavior
/// updated and then rendered, and the game asks for the events again.
pub proof fn lemma_steps_make_a_quiet_frame<
    S,
    B: Behavior<S>,
    I: InputManager<B::Message>,
    F: Fn(QuitReason) -> bool,
    Q: Fn(&B::Message) -> bool,
>(
    manager: I,
    on_quit: F,
    is_quit_message: Q,
    views: Seq<GameView<B::Message>>,
    worlds: Seq<World<S, B>>,
    clock: Seq<u64>,
    events: Seq<Seq<Event>>,
    requests: Seq<Request>,
)
    requires
        views.len() == 6,
        worlds.len() == 6,
        clock.len() == 5,
        events.len() == 5,
        requests.len() == 5,
        views[0].stage == Stage::Polling,
        events[0] == Seq::<Event>::empty(),
        requests[0] != Request::Stop,
        forall|i: int|
            0 <= i < 5 ==> #[trigger] stepped(
                views[i],
                worlds[i],
                clock[i],
                events[i],
                manager,
                on_quit,
                is_quit_message,
                views[i + 1],
                worlds[i + 1],
                requests[i],
            ),
    ensures
        views[5].stage == Stage::Polling,
        requests[4] == Request::Poll,
        none_quits(is_quit_message, views[0].front, views[0].front.len() as int),
        turned(worlds[0], views[0].front, worlds[5], views[5].front),
{
    assert(stepped(
        views[0],
        worlds[0],
        clock[0],
        events[0],
        manager,
        on_quit,
        is_quit_message,
        views[0int + 1],
        worlds[0int + 1],
        requests[0],
    ));
    lemma_quiet_frame_handles_the_front(
        views[0],
        worlds[0],
        clock[0],
        manager,
        on_quit,
        is_quit_message,
        views[1],
        worlds[1],
        requests[0],
    );
    assert(stepped(
        views[1],
        worlds[1],
        clock[1],
        events[1],
        manager,
        on_quit,
        is_quit_message,
        views[1int + 1],
        worlds[1int + 1],
        requests[1],
    ));
    assert(stepped(
        views[2],
        worlds[2],
        clock[2],
        events[2],
        manager,
        on_quit,
        is_quit_message,
        views[2int + 1],
        worlds[2int + 1],
        requests[2],
    ));
    assert(stepped(
        views[3],
        worlds[3],
        clock[3],
        events[3],
        manager,
        on_quit,
        is_quit_message,
        views[3int + 1],
        worlds[3int + 1],
        requests[3],
    ));
    assert(stepped(
        views[4],
        worlds[4],
        clock[4],
        events[4],
        manager,
        on_quit,
        is_quit_message,
        views[4int + 1],
        worlds[4int + 1],
        requests[4],
    ));
    assert(framed(worlds[0], views[0].front, worlds[1], views[5].front));
    assert(drawn(
        worlds[1].behavior,
        worlds[1].state,
        worlds[1].surface,
        worlds[5].behavior,
        worlds[5].surface,
    ));
}

/// Between the update of one frame and the poll of the next, the front queue
/// and the game state stay as they are: rendering reads the state and does
/// not write it, and no other step of these touches either.
pub proof fn lemma_rendering_keeps_state_and_queue<
    S,
    B: Behavior<S>,
    I: InputManager<B::Message>,
    F: Fn(QuitReason) -> bool,
    Q: Fn(&B::Message) -> bool,
>(
    pre: GameView<B::Message>,
    before: World<S, B>,
    now: u64,
    events: Seq<Event>,
    manager: I,
    on_quit: F,
    is_quit_message: Q,
    post: GameView<B::Message>,
    after: World<S, B>,
    request: Request,
)
    requires
        pre.stage == Stage::Drawing || pre.stage == Stage::Showing || pre.stage == Stage::Pacing
            || pre.stage == Stage::Clearing,
        stepped(
            pre,
            before,
            now,
            events,
            manager,
            on_quit,
            is_quit_message,
            post,
            after,
            request,
        ),
    ensures
        after.state == before.state,
        post.front == pre.front,
        pre.stage != Stage::Drawing ==> after == before,
{
}

} // verus!
