//! The behavior contract of game objects, and a composite that fans out to children.

use vstd::prelude::*;

verus! {

/// One of the three operations of a [`Behavior`] that may change the game.
pub enum Call<M> {
    /// `initialize`, made once before the first frame.
    Initialize,
    /// `update`, made once per frame.
    Update,
    /// `handle`, made once per message, with that message.
    Handle(M),
}

/// A behavior with what its operations work on: the game state and the queue
/// that takes the messages it sends.
pub ghost struct Scene<S, B: Behavior<S>> {
    pub behavior: B,
    pub state: S,
    pub queue: Seq<B::Message>,
}

/// The scene made of `behavior`, `state` and `queue`.
pub open spec fn scene<S, B: Behavior<S>>(behavior: B, state: S, queue: Seq<B::Message>) -> Scene<
    S,
    B,
> {
    Scene { behavior, state, queue }
}

/// What one operation of a behavior leaves behind: the operation was made
/// from `pre`, and `post` is what the behavior's own [`Behavior::reacts`] says
/// of it.
pub open spec fn acted<S, B: Behavior<S>>(
    pre: Scene<S, B>,
    call: Call<B::Message>,
    post: Scene<S, B>,
) -> bool {
    pre.behavior.reacts(call, pre.state, pre.queue, post.behavior, post.state, post.queue)
}

/// What `render` leaves behind: the behavior has rendered, and the behavior
/// and the surface are as its own [`Behavior::draws`] says. The state is only
/// read.
pub open spec fn drawn<S, B: Behavior<S>>(
    behavior: B,
    state: S,
    surface: B::Surface,
    after: B,
    surface_after: B::Surface,
) -> bool {
    behavior.draws(state, surface, after, surface_after)
}

/// The logic of a game object, or of the game as a whole.
///
/// `S` is the game state that every operation is handed. An operation that a
/// behavior has no use for has an empty body: that is the safe default. What
/// an operation does is what the behavior's own [`Behavior::reacts`] and
/// [`Behavior::draws`] say.
pub trait Behavior<S>: Sized {
    /// The messages that the game's objects send each other.
    type Message;

    /// What `render` draws on.
    type Surface;

    /// What `call` does when it starts from `self`, `state` and `queue`. An
    /// implementation that says nothing admits every change.
    open spec fn reacts(
        &self,
        call: Call<Self::Message>,
        state: S,
        queue: Seq<Self::Message>,
        after: Self,
        state_after: S,
        queue_after: Seq<Self::Message>,
    ) -> bool {
        true
    }

    /// What `render` does to the behavior and the surface.
    open spec fn draws(
        &self,
        state: S,
        surface: Self::Surface,
        after: Self,
        surface_after: Self::Surface,
    ) -> bool {
        true
    }

    /// Initializes the object, once, before the first frame. Messages pushed
    /// to `queue` are handled in the first frame.
    fn initialize(&mut self, state: &mut S, queue: &mut Vec<Self::Message>)
        ensures
            old(self).reacts(
                Call::Initialize,
                *old(state),
                old(queue)@,
                *final(self),
                *final(state),
                final(queue)@,
            ),
    ;

    /// Updates the object, once per frame, after the frame's messages were
    /// handled. Messages pushed to `queue` are handled in the next frame.
    fn update(&mut self, state: &mut S, queue: &mut Vec<Self::Message>)
        ensures
            old(self).reacts(
                Call::Update,
                *old(state),
                old(queue)@,
                *final(self),
                *final(state),
                final(queue)@,
            ),
    ;

    /// Handles one message. Messages pushed to `queue` are handled in the next
    /// frame.
    fn handle(&mut self, state: &mut S, message: Self::Message, queue: &mut Vec<Self::Message>)
        ensures
            old(self).reacts(
                Call::Handle(message),
                *old(state),
                old(queue)@,
                *final(self),
                *final(state),
                final(queue)@,
            ),
    ;

    /// Renders the object. The state is only read.
    fn render(&mut self, state: &S, surface: &mut Self::Surface)
        ensures
            old(self).draws(*state, *old(surface), *final(self), *final(surface)),
    ;
}

/// What a composite hands to a child when it is itself handed `call`: the same
/// operation, and for `handle` a clone of the message.
pub open spec fn passed_on<M: Clone>(call: Call<M>, passed: Call<M>) -> bool {
    match call {
        Call::Initialize => passed is Initialize,
        Call::Update => passed is Update,
        Call::Handle(message) => passed matches Call::Handle(copy) && cloned(message, copy),
    }
}

/// The first `upto` children of a composite have been handed `call`, one after
/// the other in the order in which they stand: `before` holds the children as
/// they were and `after` as they are, and each child found the state and the
/// queue as the child before it left them.
pub open spec fn fanned<S, B: Behavior<S>>(
    before: Seq<B>,
    call: Call<B::Message>,
    state: S,
    queue: Seq<B::Message>,
    after: Seq<B>,
    state_after: S,
    queue_after: Seq<B::Message>,
    upto: int,
) -> bool where B::Message: Clone
    decreases upto,
{
    if upto <= 0 {
        state_after == state && queue_after == queue
    } else {
        exists|mid_state: S, mid_queue: Seq<B::Message>, passed: Call<B::Message>|
            {
                &&& fanned(before, call, state, queue, after, mid_state, mid_queue, upto - 1)
                &&& passed_on(call, passed)
                &&& #[trigger] acted(
                    scene(before[upto - 1], mid_state, mid_queue),
                    passed,
                    scene(after[upto - 1], state_after, queue_after),
                )
            }
    }
}

/// The first `upto` children of a composite have rendered, one after the other
/// in the order in which they stand, each on the surface as the child before
/// it left it.
pub open spec fn fanned_draw<S, B: Behavior<S>>(
    before: Seq<B>,
    state: S,
    surface: B::Surface,
    after: Seq<B>,
    surface_after: B::Surface,
    upto: int,
) -> bool
    decreases upto,
{
    if upto <= 0 {
        surface_after == surface
    } else {
        exists|mid_surface: B::Surface|
            {
                &&& fanned_draw(before, state, surface, after, mid_surface, upto - 1)
                &&& #[trigger] drawn(
                    before[upto - 1],
                    state,
                    mid_surface,
                    after[upto - 1],
                    surface_after,
                )
            }
    }
}

/// [`fanned`] reads of `after` only the children that were called.
pub proof fn lemma_fanned_reads_prefix<S, B: Behavior<S>>(
    before: Seq<B>,
    call: Call<B::Message>,
    state: S,
    queue: Seq<B::Message>,
    after: Seq<B>,
    other: Seq<B>,
    state_after: S,
    queue_after: Seq<B::Message>,
    upto: int,
) where B::Message: Clone
    requires
        fanned(before, call, state, queue, after, state_after, queue_after, upto),
        forall|j: int| 0 <= j < upto ==> after[j] == other[j],
    ensures
        fanned(before, call, state, queue, other, state_after, queue_after, upto),
    decreases upto,
{
    if upto > 0 {
        let (mid_state, mid_queue, passed) = choose|
            mid_state: S,
            mid_queue: Seq<B::Message>,
            passed: Call<B::Message>,
        |
            {
                &&& fanned(before, call, state, queue, after, mid_state, mid_queue, upto - 1)
                &&& passed_on(call, passed)
                &&& #[trigger] acted(
                    scene(before[upto - 1], mid_state, mid_queue),
                    passed,
                    scene(after[upto - 1], state_after, queue_after),
                )
            };
        lemma_fanned_reads_prefix(
            before,
            call,
            state,
            queue,
            after,
            other,
            mid_state,
            mid_queue,
            upto - 1,
        );
        assert(acted(
            scene(before[upto - 1], mid_state, mid_queue),
            passed,
            scene(other[upto - 1], state_after, queue_after),
        ));
    }
}

/// [`fanned_draw`] reads of `after` only the children that have rendered.
pub proof fn lemma_fanned_draw_reads_prefix<S, B: Behavior<S>>(
    before: Seq<B>,
    state: S,
    surface: B::Surface,
    after: Seq<B>,
    other: Seq<B>,
    surface_after: B::Surface,
    upto: int,
)
    requires
        fanned_draw(before, state, surface, after, surface_after, upto),
        forall|j: int| 0 <= j < upto ==> after[j] == other[j],
    ensures
        fanned_draw(before, state, surface, other, surface_after, upto),
    decreases upto,
{
    if upto > 0 {
        let mid_surface = choose|mid_surface: B::Surface|
            {
                &&& fanned_draw(before, state, surface, after, mid_surface, upto - 1)
                &&& #[trigger] drawn(
                    before[upto - 1],
                    state,
                    mid_surface,
                    after[upto - 1],
                    surface_after,
                )
            };
        lemma_fanned_draw_reads_prefix(before, state, surface, after, other, mid_surface, upto - 1);
        assert(drawn(before[upto - 1], state, mid_surface, other[upto - 1], surface_after));
    }
}

/// One more child has been called: [`fanned`] then holds of one child more.
pub proof fn lemma_fanned_next<S, B: Behavior<S>>(
    before: Seq<B>,
    call: Call<B::Message>,
    state: S,
    queue: Seq<B::Message>,
    children: Seq<B>,
    after: Seq<B>,
    mid_state: S,
    mid_queue: Seq<B::Message>,
    passed: Call<B::Message>,
    state_after: S,
    queue_after: Seq<B::Message>,
    upto: int,
) where B::Message: Clone
    requires
        0 <= upto,
        fanned(before, call, state, queue, children, mid_state, mid_queue, upto),
        forall|j: int| 0 <= j < upto ==> children[j] == after[j],
        passed_on(call, passed),
        acted(
            scene(before[upto], mid_state, mid_queue),
            passed,
            scene(after[upto], state_after, queue_after),
        ),
    ensures
        fanned(before, call, state, queue, after, state_after, queue_after, upto + 1),
{
    lemma_fanned_reads_prefix(
        before,
        call,
        state,
        queue,
        children,
        after,
        mid_state,
        mid_queue,
        upto,
    );
    let next = upto + 1;
    assert(fanned(before, call, state, queue, after, mid_state, mid_queue, next - 1));
    assert(acted(
        scene(before[next - 1], mid_state, mid_queue),
        passed,
        scene(after[next - 1], state_after, queue_after),
    ));
}

/// One more child has rendered: [`fanned_draw`] then holds of one child more.
pub proof fn lemma_fanned_draw_next<S, B: Behavior<S>>(
    before: Seq<B>,
    state: S,
    surface: B::Surface,
    children: Seq<B>,
    after: Seq<B>,
    mid_surface: B::Surface,
    surface_after: B::Surface,
    upto: int,
)
    requires
        0 <= upto,
        fanned_draw(before, state, surface, children, mid_surface, upto),
        forall|j: int| 0 <= j < upto ==> children[j] == after[j],
        drawn(before[upto], state, mid_surface, after[upto], surface_after),
    ensures
        fanned_draw(before, state, surface, after, surface_after, upto + 1),
{
    lemma_fanned_draw_reads_prefix(before, state, surface, children, after, mid_surface, upto);
    let next = upto + 1;
    assert(fanned_draw(before, state, surface, after, mid_surface, next - 1));
    assert(drawn(before[next - 1], state, mid_surface, after[next - 1], surface_after));
}

/// A behavior that only ever sends: whatever one of its operations does, the
/// queue afterwards begins with the queue as it was.
pub open spec fn sends_behind<S, B: Behavior<S>>() -> bool {
    forall|pre: Scene<S, B>, call: Call<B::Message>, post: Scene<S, B>| #[trigger]
        acted(pre, call, post) ==> pre.queue.is_prefix_of(post.queue)
}

/// Every operation reaches every child of a composite. The child at `child`
/// finds the state and the queue as the children before it left them, is
/// handed the operation that the composite was handed, and leaves what its
/// own [`Behavior::reacts`] says.
pub proof fn lemma_fan_out_reaches_each_child<S, B: Behavior<S>>(
    before: Seq<B>,
    call: Call<B::Message>,
    state: S,
    queue: Seq<B::Message>,
    after: Seq<B>,
    state_after: S,
    queue_after: Seq<B::Message>,
    upto: int,
    child: int,
) where B::Message: Clone
    requires
        0 <= child < upto,
        fanned(before, call, state, queue, after, state_after, queue_after, upto),
    ensures
        exists|found: Scene<S, B>, passed: Call<B::Message>, left: Scene<S, B>|
            {
                &&& fanned(before, call, state, queue, after, found.state, found.queue, child)
                &&& fanned(before, call, state, queue, after, left.state, left.queue, child + 1)
                &&& found.behavior == before[child]
                &&& left.behavior == after[child]
                &&& passed_on(call, passed)
                &&& #[trigger] acted(found, passed, left)
            },
    decreases upto,
{
    let (mid_state, mid_queue, passed) = choose|
        mid_state: S,
        mid_queue: Seq<B::Message>,
        passed: Call<B::Message>,
    |
        {
            &&& fanned(before, call, state, queue, after, mid_state, mid_queue, upto - 1)
            &&& passed_on(call, passed)
            &&& #[trigger] acted(
                scene(before[upto - 1], mid_state, mid_queue),
                passed,
                scene(after[upto - 1], state_after, queue_after),
            )
        };
    if child == upto - 1 {
        let found = scene(before[child], mid_state, mid_queue);
        let left = scene(after[child], state_after, queue_after);
        assert(acted(found, passed, left));
    } else {
        lemma_fan_out_reaches_each_child(
            before,
            call,
            state,
            queue,
            after,
            mid_state,
            mid_queue,
            upto - 1,
            child,
        );
    }
}

/// Every child of a composite renders. The child at `child` finds the
/// surface as the children before it left it, and leaves what its own
/// [`Behavior::draws`] says.
pub proof fn lemma_fan_out_draws_each_child<S, B: Behavior<S>>(
    before: Seq<B>,
    state: S,
    surface: B::Surface,
    after: Seq<B>,
    surface_after: B::Surface,
    upto: int,
    child: int,
)
    requires
        0 <= child < upto,
        fanned_draw(before, state, surface, after, surface_after, upto),
    ensures
        exists|found: B::Surface, left: B::Surface|
            {
                &&& fanned_draw(before, state, surface, after, found, child)
                &&& fanned_draw(before, state, surface, after, left, child + 1)
                &&& #[trigger] drawn(before[child], state, found, after[child], left)
            },
    decreases upto,
{
    let mid_surface = choose|mid_surface: B::Surface|
        {
            &&& fanned_draw(before, state, surface, after, mid_surface, upto - 1)
            &&& #[trigger] drawn(
                before[upto - 1],
                state,
                mid_surface,
                after[upto - 1],
                surface_after,
            )
        };
    if child == upto - 1 {
        assert(drawn(before[child], state, mid_surface, after[child], surface_after));
    } else {
        lemma_fan_out_draws_each_child(before, state, surface, after, mid_surface, upto - 1, child);
    }
}

/// A composite sends what its children send, in their order, and nothing of
/// its own: with children that only ever send, what the first `fewer`
/// children left in the queue stands in front of what the first `upto` left,
/// and what the queue held before stands in front of both.
pub proof fn lemma_fan_out_sends_behind<S, B: Behavior<S>>(
    before: Seq<B>,
    call: Call<B::Message>,
    state: S,
    queue: Seq<B::Message>,
    after: Seq<B>,
    state_after: S,
    queue_after: Seq<B::Message>,
    upto: int,
    fewer: int,
) where B::Message: Clone
    requires
        sends_behind::<S, B>(),
        0 <= fewer <= upto,
        fanned(before, call, state, queue, after, state_after, queue_after, upto),
    ensures
        exists|mid_state: S, mid_queue: Seq<B::Message>|
            {
                &&& #[trigger] fanned(
                    before,
                    call,
                    state,
                    queue,
                    after,
                    mid_state,
                    mid_queue,
                    fewer,
                )
                &&& queue.is_prefix_of(mid_queue)
                &&& mid_queue.is_prefix_of(queue_after)
            },
    decreases upto,
{
    if upto == 0 {
        assert(fanned(before, call, state, queue, after, state_after, queue_after, fewer));
    } else {
        let (mid_state, mid_queue, passed) = choose|
            mid_state: S,
            mid_queue: Seq<B::Message>,
            passed: Call<B::Message>,
        |
            {
                &&& fanned(before, call, state, queue, after, mid_state, mid_queue, upto - 1)
                &&& passed_on(call, passed)
                &&& #[trigger] acted(
                    scene(before[upto - 1], mid_state, mid_queue),
                    passed,
                    scene(after[upto - 1], state_after, queue_after),
                )
            };
        assert(mid_queue.is_prefix_of(queue_after));
        if fewer == upto {
            lemma_fan_out_sends_behind(
                before,
                call,
                state,
                queue,
                after,
                mid_state,
                mid_queue,
                upto - 1,
                upto - 1,
            );
            assert(fanned(before, call, state, queue, after, state_after, queue_after, fewer));
        } else {
            lemma_fan_out_sends_behind(
                before,
                call,
                state,
                queue,
                after,
                mid_state,
                mid_queue,
                upto - 1,
                fewer,
            );
        }
    }
}

/// Cloning a message gives a message equal to it.
pub open spec fn clone_is_equal<M: Clone>() -> bool {
    forall|message: M, copy: M| #[trigger] cloned(message, copy) ==> copy == message
}

/// Every child of a composite is handed the message. The child at `child`
/// finds the state and the queue as the children before it left them, and
/// handles a clone of the message that the composite was given: a clone of
/// that message itself, not of what another child was handed, so that nothing
/// a child does to its message reaches another child. Where cloning gives an
/// equal message, each child handles a message equal to the one given.
pub proof fn lemma_fan_out_hands_each_child_the_message<S, B: Behavior<S>>(
    before: Seq<B>,
    message: B::Message,
    state: S,
    queue: Seq<B::Message>,
    after: Seq<B>,
    state_after: S,
    queue_after: Seq<B::Message>,
    upto: int,
    child: int,
) where B::Message: Clone
    requires
        0 <= child < upto,
        fanned(before, Call::Handle(message), state, queue, after, state_after, queue_after, upto),
    ensures
        exists|found: Scene<S, B>, copy: B::Message, left: Scene<S, B>|
            {
                &&& fanned(
                    before,
                    Call::Handle(message),
                    state,
                    queue,
                    after,
                    found.state,
                    found.queue,
                    child,
                )
                &&& found.behavior == before[child]
                &&& left.behavior == after[child]
                &&& cloned(message, copy)
                &&& clone_is_equal::<B::Message>() ==> copy == message
                &&& #[trigger] acted(found, Call::Handle(copy), left)
            },
    decreases upto,
{
    let call = Call::Handle(message);
    let (mid_state, mid_queue, passed) = choose|
        mid_state: S,
        mid_queue: Seq<B::Message>,
        passed: Call<B::Message>,
    |
        {
            &&& fanned(before, call, state, queue, after, mid_state, mid_queue, upto - 1)
            &&& passed_on(call, passed)
            &&& #[trigger] acted(
                scene(before[upto - 1], mid_state, mid_queue),
                passed,
                scene(after[upto - 1], state_after, queue_after),
            )
        };
    if child == upto - 1 {
        let copy = passed->Handle_0;
        let found = scene(before[child], mid_state, mid_queue);
        let left = scene(after[child], state_after, queue_after);
        assert(acted(found, Call::Handle(copy), left));
    } else {
        lemma_fan_out_hands_each_child_the_message(
            before,
            message,
            state,
            queue,
            after,
            mid_state,
            mid_queue,
            upto - 1,
            child,
        );
    }
}

/// An ordered collection of children is a behavior: every operation is handed
/// to every child, in the order in which the children stand. `handle` gives
/// each child a clone of the message.
impl<S, B> Behavior<S> for Vec<B> where B: Behavior<S>, B::Message: Clone {
    type Message = B::Message;

    type Surface = B::Surface;

    open spec fn reacts(
        &self,
        call: Call<B::Message>,
        state: S,
        queue: Seq<B::Message>,
        after: Self,
        state_after: S,
        queue_after: Seq<B::Message>,
    ) -> bool {
        &&& after@.len() == self@.len()
        &&& fanned(self@, call, state, queue, after@, state_after, queue_after, self@.len() as int)
    }

    open spec fn draws(
        &self,
        state: S,
        surface: B::Surface,
        after: Self,
        surface_after: B::Surface,
    ) -> bool {
        &&& after@.len() == self@.len()
        &&& fanned_draw(self@, state, surface, after@, surface_after, self@.len() as int)
    }

    fn initialize(&mut self, state: &mut S, queue: &mut Vec<B::Message>)
        ensures
            old(self).reacts(
                Call::Initialize,
                *old(state),
                old(queue)@,
                *final(self),
                *final(state),
                final(queue)@,
            ),
    {
        let n = self.len();
        let mut i: usize = 0;
        while i < n
            invariant
                i <= n,
                self@.len() == n,
                old(self)@.len() == n,
                forall|j: int| i <= j < n ==> self@[j] == old(self)@[j],
                fanned(
                    old(self)@,
                    Call::Initialize,
                    *old(state),
                    old(queue)@,
                    self@,
                    *state,
                    queue@,
                    i as int,
                ),
            decreases n - i,
        {
            let ghost children = self@;
            let ghost mid_state = *state;
            let ghost mid_queue = queue@;
            self[i].initialize(state, queue);
            proof {
                lemma_fanned_next(
                    old(self)@,
                    Call::Initialize,
                    *old(state),
                    old(queue)@,
                    children,
                    self@,
                    mid_state,
                    mid_queue,
                    Call::Initialize,
                    *state,
                    queue@,
                    i as int,
                );
            }
            i += 1;
        }
    }

    fn update(&mut self, state: &mut S, queue: &mut Vec<B::Message>)
        ensures
            old(self).reacts(
                Call::Update,
                *old(state),
                old(queue)@,
                *final(self),
                *final(state),
                final(queue)@,
            ),
    {
        let n = self.len();
        let mut i: usize = 0;
        while i < n
            invariant
                i <= n,
                self@.len() == n,
                old(self)@.len() == n,
                forall|j: int| i <= j < n ==> self@[j] == old(self)@[j],
                fanned(
                    old(self)@,
                    Call::Update,
                    *old(state),
                    old(queue)@,
                    self@,
                    *state,
                    queue@,
                    i as int,
                ),
            decreases n - i,
        {
            let ghost children = self@;
            let ghost mid_state = *state;
            let ghost mid_queue = queue@;
            self[i].update(state, queue);
            proof {
                lemma_fanned_next(
                    old(self)@,
                    Call::Update,
                    *old(state),
                    old(queue)@,
                    children,
                    self@,
                    mid_state,
                    mid_queue,
                    Call::Update,
                    *state,
                    queue@,
                    i as int,
                );
            }
            i += 1;
        }
    }

    fn handle(&mut self, state: &mut S, message: B::Message, queue: &mut Vec<B::Message>)
        ensures
            old(self).reacts(
                Call::Handle(message),
                *old(state),
                old(queue)@,
                *final(self),
                *final(state),
                final(queue)@,
            ),
    {
        let n = self.len();
        let mut i: usize = 0;
        while i < n
            invariant
                i <= n,
                self@.len() == n,
                old(self)@.len() == n,
                forall|j: int| i <= j < n ==> self@[j] == old(self)@[j],
                fanned(
                    old(self)@,
                    Call::Handle(message),
                    *old(state),
                    old(queue)@,
                    self@,
                    *state,
                    queue@,
                    i as int,
                ),
            decreases n - i,
        {
            let ghost children = self@;
            let ghost mid_state = *state;
            let ghost mid_queue = queue@;
            let copy = message.clone();
            self[i].handle(state, copy, queue);
            proof {
                lemma_fanned_next(
                    old(self)@,
                    Call::Handle(message),
                    *old(state),
                    old(queue)@,
                    children,
                    self@,
                    mid_state,
                    mid_queue,
                    Call::Handle(copy),
                    *state,
                    queue@,
                    i as int,
                );
            }
            i += 1;
        }
    }

    fn render(&mut self, state: &S, surface: &mut B::Surface)
        ensures
            old(self).draws(*state, *old(surface), *final(self), *final(surface)),
    {
        let n = self.len();
        let mut i: usize = 0;
        while i < n
            invariant
                i <= n,
                self@.len() == n,
                old(self)@.len() == n,
                forall|j: int| i <= j < n ==> self@[j] == old(self)@[j],
                fanned_draw(old(self)@, *state, *old(surface), self@, *surface, i as int),
            decreases n - i,
        {
            let ghost children = self@;
            let ghost mid_surface = *surface;
            self[i].render(state, surface);
            proof {
                lemma_fanned_draw_next(
                    old(self)@,
                    *state,
                    *old(surface),
                    children,
                    self@,
                    mid_surface,
                    *surface,
                    i as int,
                );
            }
            i += 1;
        }
    }
}

} // verus!
