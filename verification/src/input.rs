//! From platform events to messages: the input manager contract, patterns to
//! match events against, and a mapper that holds an ordered list of rules.

use crate::event::Event;
use vstd::prelude::*;

verus! {

/// Converts platform events into messages.
///
/// `M` is the type of the messages. `handle` pushes the messages that an event
/// stands for to the queue it is given.
pub trait InputManager<M> {
    /// The changes that `handle` may make to the queue for `event`. An
    /// implementation that says nothing admits every change.
    open spec fn maps(&self, event: Event, queue: Seq<M>, queue_after: Seq<M>) -> bool {
        true
    }

    /// Pushes the messages generated from `event` to `queue`.
    fn handle(&self, event: &Event, queue: &mut Vec<M>)
        ensures
            self.maps(*event, old(queue)@, final(queue)@),
    ;
}

/// What a pattern looks at.
#[derive(Clone, Copy, Debug, Eq, Hash, PartialEq)]
pub enum InputPatternKind {
    /// A quit event.
    Quit,
    /// A key that goes down in the pattern's window, not a repeat.
    KeyPressed { key: i32, is_scancode: bool, modifiers: u32 },
    /// A key that goes up in the pattern's window.
    KeyReleased { key: i32, is_scancode: bool, modifiers: u32 },
    /// A key that repeats in the pattern's window while it is held.
    KeyRepeated { key: i32, is_scancode: bool, modifiers: u32 },
    /// A key-down event of a key, in any window, with any modifiers, repeated or not.
    KeyDown { key: i32, is_scancode: bool },
    /// A key-up event of a key, in any window, with any modifiers.
    KeyUp { key: i32, is_scancode: bool },
}

/// A pattern to match platform events against.
#[derive(Clone, Copy, Debug, Eq, Hash, PartialEq)]
pub struct InputPattern {
    pub window_id: u32,
    pub kind: InputPatternKind,
}

/// Whether an event's key is the key `key`: by the event's scan code, which
/// names the key's place on the keyboard, if `is_scancode`, else by its key
/// code, which names the character.
pub open spec fn key_matches(
    key: i32,
    is_scancode: bool,
    keycode: Option<i32>,
    scancode: Option<i32>,
) -> bool {
    if is_scancode {
        scancode == Some(key)
    } else {
        keycode == Some(key)
    }
}

/// Whether every modifier bit of `wanted` is set in `held`.
pub open spec fn modifiers_held(wanted: u32, held: u32) -> bool {
    (held & wanted) == wanted
}

fn same_key(key: i32, is_scancode: bool, keycode: &Option<i32>, scancode: &Option<i32>) -> (r: bool)
    ensures
        r == key_matches(key, is_scancode, *keycode, *scancode),
{
    let code = if is_scancode {
        scancode
    } else {
        keycode
    };
    match code {
        Some(c) => *c == key,
        None => false,
    }
}

impl InputPattern {
    /// Whether `event` matches this pattern.
    pub open spec fn accepts(self, event: Event) -> bool {
        match self.kind {
            InputPatternKind::Quit => event is Quit,
            InputPatternKind::KeyPressed { key, is_scancode, modifiers } => {
                &&& event matches Event::KeyDown { window_id, keycode, scancode, keymod, repeat, .. }
                &&& window_id == self.window_id
                &&& !repeat
                &&& key_matches(key, is_scancode, keycode, scancode)
                &&& modifiers_held(modifiers, keymod)
            },
            InputPatternKind::KeyReleased { key, is_scancode, modifiers } => {
                &&& event matches Event::KeyUp { window_id, keycode, scancode, keymod, .. }
                &&& window_id == self.window_id
                &&& key_matches(key, is_scancode, keycode, scancode)
                &&& modifiers_held(modifiers, keymod)
            },
            InputPatternKind::KeyRepeated { key, is_scancode, modifiers } => {
                &&& event matches Event::KeyDown { window_id, keycode, scancode, keymod, repeat, .. }
                &&& window_id == self.window_id
                &&& repeat
                &&& key_matches(key, is_scancode, keycode, scancode)
                &&& modifiers_held(modifiers, keymod)
            },
            InputPatternKind::KeyDown { key, is_scancode } => {
                &&& event matches Event::KeyDown { keycode, scancode, .. }
                &&& key_matches(key, is_scancode, keycode, scancode)
            },
            InputPatternKind::KeyUp { key, is_scancode } => {
                &&& event matches Event::KeyUp { keycode, scancode, .. }
                &&& key_matches(key, is_scancode, keycode, scancode)
            },
        }
    }

    fn new(window_id: u32, kind: InputPatternKind) -> (pattern: InputPattern)
        ensures
            pattern == (InputPattern { window_id, kind }),
    {
        InputPattern { window_id, kind }
    }

    /// Creates a pattern for matching quit events.
    pub fn quit() -> (pattern: InputPattern)
        ensures
            pattern == (InputPattern { window_id: 0, kind: InputPatternKind::Quit }),
    {
        InputPattern::new(0, InputPatternKind::Quit)
    }

    /// Creates a pattern for matching pressed keys.
    ///
    /// If `is_scancode` is `true`, `key` is a scan code and events match by
    /// the key's place on the keyboard rather than by the character it
    /// produces. This is recommended for inputs where the layout matters
    /// (like inverted-T WASD keys), rather than for inputs where a mnemonic
    /// is used (like I for inventory). Without `modifiers` none is asked for.
    pub fn key_pressed(window_id: u32, key: i32, is_scancode: bool, modifiers: Option<u32>) -> (pattern:
        InputPattern)
        ensures
            pattern == (InputPattern {
                window_id,
                kind: InputPatternKind::KeyPressed {
                    key,
                    is_scancode,
                    modifiers: match modifiers {
                        Some(m) => m,
                        None => 0,
                    },
                },
            }),
    {
        let modifiers = match modifiers {
            Some(m) => m,
            None => 0,
        };
        InputPattern::new(window_id, InputPatternKind::KeyPressed { key, is_scancode, modifiers })
    }

    /// Creates a pattern for matching released keys. See [`InputPattern::key_pressed`].
    pub fn key_released(window_id: u32, key: i32, is_scancode: bool, modifiers: Option<u32>) -> (pattern:
        InputPattern)
        ensures
            pattern == (InputPattern {
                window_id,
                kind: InputPatternKind::KeyReleased {
                    key,
                    is_scancode,
                    modifiers: match modifiers {
                        Some(m) => m,
                        None => 0,
                    },
                },
            }),
    {
        let modifiers = match modifiers {
            Some(m) => m,
            None => 0,
        };
        InputPattern::new(window_id, InputPatternKind::KeyReleased { key, is_scancode, modifiers })
    }

    /// Creates a pattern for matching repeated key presses. See [`InputPattern::key_pressed`].
    pub fn key_repeated(window_id: u32, key: i32, is_scancode: bool, modifiers: Option<u32>) -> (pattern:
        InputPattern)
        ensures
            pattern == (InputPattern {
                window_id,
                kind: InputPatternKind::KeyRepeated {
                    key,
                    is_scancode,
                    modifiers: match modifiers {
                        Some(m) => m,
                        None => 0,
                    },
                },
            }),
    {
        let modifiers = match modifiers {
            Some(m) => m,
            None => 0,
        };
        InputPattern::new(window_id, InputPatternKind::KeyRepeated { key, is_scancode, modifiers })
    }

    /// Returns true if the event matches the pattern.
    pub fn matches(&self, event: &Event) -> (r: bool)
        ensures
            r == self.accepts(*event),
    {
        match self.kind {
            InputPatternKind::Quit => match event {
                Event::Quit { .. } => true,
                _ => false,
            },
            InputPatternKind::KeyPressed { key, is_scancode, modifiers } => match event {
                Event::KeyDown { window_id, keycode, scancode, keymod, repeat, .. } => {
                    *window_id == self.window_id && !*repeat && same_key(
                        key,
                        is_scancode,
                        keycode,
                        scancode,
                    ) && (*keymod & modifiers) == modifiers
                },
                _ => false,
            },
            InputPatternKind::KeyReleased { key, is_scancode, modifiers } => match event {
                Event::KeyUp { window_id, keycode, scancode, keymod, .. } => {
                    *window_id == self.window_id && same_key(key, is_scancode, keycode, scancode)
                        && (*keymod & modifiers) == modifiers
                },
                _ => false,
            },
            InputPatternKind::KeyRepeated { key, is_scancode, modifiers } => match event {
                Event::KeyDown { window_id, keycode, scancode, keymod, repeat, .. } => {
                    *window_id == self.window_id && *repeat && same_key(
                        key,
                        is_scancode,
                        keycode,
                        scancode,
                    ) && (*keymod & modifiers) == modifiers
                },
                _ => false,
            },
            InputPatternKind::KeyDown { key, is_scancode } => match event {
                Event::KeyDown { keycode, scancode, .. } => same_key(
                    key,
                    is_scancode,
                    keycode,
                    scancode,
                ),
                _ => false,
            },
            InputPatternKind::KeyUp { key, is_scancode } => match event {
                Event::KeyUp { keycode, scancode, .. } => same_key(
                    key,
                    is_scancode,
                    keycode,
                    scancode,
                ),
                _ => false,
            },
        }
    }
}

/// A rule: the pattern to match events against, and the message that an
/// event which matches stands for.
#[derive(Clone, Copy, Debug, Eq, Hash, PartialEq)]
pub struct Mapping<M> {
    pub pattern: InputPattern,
    pub message: M,
}

impl<M: Clone> InputManager<M> for Mapping<M> {
    /// An event that matches the pattern adds one clone of the message to the
    /// queue; any other event leaves the queue as it is.
    open spec fn maps(&self, event: Event, queue: Seq<M>, queue_after: Seq<M>) -> bool {
        if self.pattern.accepts(event) {
            exists|copy: M| cloned(self.message, copy) && queue_after == queue.push(copy)
        } else {
            queue_after == queue
        }
    }

    fn handle(&self, event: &Event, queue: &mut Vec<M>) {
        if self.pattern.matches(event) {
            let copy = self.message.clone();
            queue.push(copy);
        }
    }
}

/// A rule whose message is made anew for each event that matches: the
/// pattern, and the function that makes the message.
#[verifier::reject_recursive_types(M)]
pub struct MappingWith<M, F: Fn() -> M> {
    pattern: InputPattern,
    make: F,
    made: core::marker::PhantomData<M>,
}

impl<M, F: Fn() -> M> MappingWith<M, F> {
    #[verifier::type_invariant]
    spec fn callable(self) -> bool {
        call_requires(self.make, ())
    }

    /// The pattern of the rule.
    pub closed spec fn pattern(self) -> InputPattern {
        self.pattern
    }

    /// The function that makes the rule's messages.
    pub closed spec fn factory(self) -> F {
        self.make
    }

    /// Creates the rule that answers an event which matches `pattern` with
    /// what `func` returns.
    pub fn new(pattern: InputPattern, func: F) -> (rule: Self)
        requires
            call_requires(func, ()),
        ensures
            rule.pattern() == pattern,
            rule.factory() == func,
    {
        MappingWith { pattern, make: func, made: core::marker::PhantomData }
    }
}

impl<M, F: Fn() -> M> InputManager<M> for MappingWith<M, F> {
    /// An event that matches the pattern adds to the queue one message that
    /// the function returned; any other event leaves the queue as it is.
    open spec fn maps(&self, event: Event, queue: Seq<M>, queue_after: Seq<M>) -> bool {
        if self.pattern().accepts(event) {
            exists|message: M|
                call_ensures(self.factory(), (), message) && queue_after == queue.push(message)
        } else {
            queue_after == queue
        }
    }

    fn handle(&self, event: &Event, queue: &mut Vec<M>) {
        if self.pattern.matches(event) {
            proof {
                use_type_invariant(self);
            }
            let message = (self.make)();
            queue.push(message);
        }
    }
}

/// A rule for key-down events of the key with key code `keycode`.
pub fn map_key_pressed<M>(keycode: i32, message: M) -> (rule: Mapping<M>)
    ensures
        rule.pattern == (InputPattern {
            window_id: 0,
            kind: InputPatternKind::KeyDown { key: keycode, is_scancode: false },
        }),
        rule.message == message,
{
    Mapping {
        pattern: InputPattern {
            window_id: 0,
            kind: InputPatternKind::KeyDown { key: keycode, is_scancode: false },
        },
        message,
    }
}

/// A rule for key-up events of the key with key code `keycode`.
pub fn map_key_released<M>(keycode: i32, message: M) -> (rule: Mapping<M>)
    ensures
        rule.pattern == (InputPattern {
            window_id: 0,
            kind: InputPatternKind::KeyUp { key: keycode, is_scancode: false },
        }),
        rule.message == message,
{
    Mapping {
        pattern: InputPattern {
            window_id: 0,
            kind: InputPatternKind::KeyUp { key: keycode, is_scancode: false },
        },
        message,
    }
}

/// A rule for key-down events of the key with scan code `scancode`.
pub fn map_scan_pressed<M>(scancode: i32, message: M) -> (rule: Mapping<M>)
    ensures
        rule.pattern == (InputPattern {
            window_id: 0,
            kind: InputPatternKind::KeyDown { key: scancode, is_scancode: true },
        }),
        rule.message == message,
{
    Mapping {
        pattern: InputPattern {
            window_id: 0,
            kind: InputPatternKind::KeyDown { key: scancode, is_scancode: true },
        },
        message,
    }
}

/// A rule for key-up events of the key with scan code `scancode`.
pub fn map_scan_released<M>(scancode: i32, message: M) -> (rule: Mapping<M>)
    ensures
        rule.pattern == (InputPattern {
            window_id: 0,
            kind: InputPatternKind::KeyUp { key: scancode, is_scancode: true },
        }),
        rule.message == message,
{
    Mapping {
        pattern: InputPattern {
            window_id: 0,
            kind: InputPatternKind::KeyUp { key: scancode, is_scancode: true },
        },
        message,
    }
}

/// Every manager of `mappers` has been handed `event`, one after the other in
/// the order in which they stand, each with the queue as the one before it
/// left it.
pub open spec fn mapped_all<M, R: InputManager<M>>(
    mappers: Seq<R>,
    event: Event,
    queue: Seq<M>,
    queue_after: Seq<M>,
) -> bool
    decreases mappers.len(),
{
    if mappers.len() == 0 {
        queue_after == queue
    } else {
        exists|mid: Seq<M>|
            {
                &&& mapped_all(mappers.drop_last(), event, queue, mid)
                &&& #[trigger] mappers.last().maps(event, mid, queue_after)
            }
    }
}

/// A rule of a mapper, of one of three kinds.
#[verifier::reject_recursive_types(M)]
pub enum Rule<M, F: Fn() -> M, R> {
    /// A pattern with a message to clone for each event that matches.
    Message(Mapping<M>),
    /// A pattern with a function that makes a message for each event that
    /// matches.
    Made(MappingWith<M, F>),
    /// An input manager of the caller's own.
    Other(R),
}

impl<M: Clone, F: Fn() -> M, R: InputManager<M>> InputManager<M> for Rule<M, F, R> {
    /// What the rule inside does.
    open spec fn maps(&self, event: Event, queue: Seq<M>, queue_after: Seq<M>) -> bool {
        match self {
            Rule::Message(rule) => rule.maps(event, queue, queue_after),
            Rule::Made(rule) => rule.maps(event, queue, queue_after),
            Rule::Other(manager) => manager.maps(event, queue, queue_after),
        }
    }

    fn handle(&self, event: &Event, queue: &mut Vec<M>) {
        match self {
            Rule::Message(rule) => rule.handle(event, queue),
            Rule::Made(rule) => rule.handle(event, queue),
            Rule::Other(manager) => manager.handle(event, queue),
        }
    }
}

/// Maps events to messages by an ordered list of rules.
///
/// `F` is the type of the functions that make messages, and `R` the type of
/// the input managers that are added as they are. One mapper holds rules of
/// all three kinds, in the order in which they were added.
#[verifier::reject_recursive_types(M)]
pub struct BoxedInputMapper<M, F: Fn() -> M, R> {
    mappers: Vec<Rule<M, F, R>>,
}

impl<M, F: Fn() -> M, R> View for BoxedInputMapper<M, F, R> {
    type V = Seq<Rule<M, F, R>>;

    /// The rules, in the order in which they were added.
    closed spec fn view(&self) -> Seq<Rule<M, F, R>> {
        self.mappers@
    }
}

impl<M, F: Fn() -> M, R> BoxedInputMapper<M, F, R> {
    /// Creates a new input mapper, without rules.
    pub fn new() -> (mapper: Self)
        ensures
            mapper@ == Seq::<Rule<M, F, R>>::empty(),
    {
        BoxedInputMapper { mappers: Vec::new() }
    }

    /// Adds an input manager to the input mapper, behind the rules that it has.
    pub fn add(&mut self, mapper: R)
        ensures
            final(self)@ == old(self)@.push(Rule::Other(mapper)),
    {
        self.mappers.push(Rule::Other(mapper))
    }

    /// Adds a pattern with a message constructor, called for each event that
    /// matches, behind the rules that the mapper has.
    pub fn add_pattern_with(&mut self, pattern: InputPattern, func: F)
        requires
            call_requires(func, ()),
        ensures
            final(self)@.len() == old(self)@.len() + 1,
            final(self)@.drop_last() == old(self)@,
            final(self)@.last() matches Rule::Made(rule) && rule.pattern() == pattern
                && rule.factory() == func,
    {
        self.mappers.push(Rule::Made(MappingWith::new(pattern, func)));
    }
}

impl<M: Clone, F: Fn() -> M, R> BoxedInputMapper<M, F, R> {
    /// Adds a pattern with a message to clone for each event that matches,
    /// behind the rules that the mapper has.
    pub fn add_pattern(&mut self, pattern: InputPattern, message: M)
        ensures
            final(self)@ == old(self)@.push(Rule::Message(Mapping { pattern, message })),
    {
        self.mappers.push(Rule::Message(Mapping { pattern, message }));
    }
}

impl<M: Clone, F: Fn() -> M, R: InputManager<M>> InputManager<M> for BoxedInputMapper<M, F, R> {
    /// Every rule is handed the event, in the order in which the rules were added.
    open spec fn maps(&self, event: Event, queue: Seq<M>, queue_after: Seq<M>) -> bool {
        mapped_all(self@, event, queue, queue_after)
    }

    fn handle(&self, event: &Event, queue: &mut Vec<M>) {
        let n = self.mappers.len();
        let mut i: usize = 0;
        while i < n
            invariant
                i <= n,
                n == self.mappers@.len(),
                mapped_all(self.mappers@.take(i as int), *event, old(queue)@, queue@),
            decreases n - i,
        {
            let ghost mid = queue@;
            self.mappers[i].handle(event, queue);
            proof {
                let upto = self.mappers@.take(i + 1);
                assert(upto.drop_last() == self.mappers@.take(i as int));
                assert(upto.last() == self.mappers@[i as int]);
                assert(upto.last().maps(*event, mid, queue@));
            }
            i += 1;
        }
        proof {
            assert(self.mappers@.take(n as int) == self.mappers@);
        }
    }
}

/// Whether every rule is a pattern with a message to clone.
pub open spec fn all_messages<M, F: Fn() -> M, R>(rules: Seq<Rule<M, F, R>>) -> bool {
    forall|i: int| 0 <= i < rules.len() ==> #[trigger] rules[i] is Message
}

/// The messages of the rules with a message whose pattern `event` matches,
/// in the order of the rules.
pub open spec fn accepted<M, F: Fn() -> M, R>(rules: Seq<Rule<M, F, R>>, event: Event) -> Seq<M>
    decreases rules.len(),
{
    if rules.len() == 0 {
        Seq::empty()
    } else {
        match rules.last() {
            Rule::Message(rule) if rule.pattern.accepts(event) => accepted(
                rules.drop_last(),
                event,
            ).push(rule.message),
            _ => accepted(rules.drop_last(), event),
        }
    }
}

/// `copies` holds one clone of each item of `messages`, in their order.
pub open spec fn clones_of<M: Clone>(messages: Seq<M>, copies: Seq<M>) -> bool {
    &&& copies.len() == messages.len()
    &&& forall|i: int| 0 <= i < messages.len() ==> cloned(messages[i], #[trigger] copies[i])
}

/// A list of rules that are all patterns with a message adds to the queue,
/// for one event, one clone of the message of each rule that the event
/// matches, in the order of the rules, and leaves what the queue held where
/// it was.
pub proof fn lemma_mappings_produce<M: Clone, F: Fn() -> M, R: InputManager<M>>(
    rules: Seq<Rule<M, F, R>>,
    event: Event,
    queue: Seq<M>,
    queue_after: Seq<M>,
)
    requires
        all_messages(rules),
        mapped_all(rules, event, queue, queue_after),
    ensures
        queue_after.len() == queue.len() + accepted(rules, event).len(),
        queue_after.subrange(0, queue.len() as int) == queue,
        clones_of(
            accepted(rules, event),
            queue_after.subrange(queue.len() as int, queue_after.len() as int),
        ),
    decreases rules.len(),
{
    if rules.len() > 0 {
        let mid = choose|mid: Seq<M>|
            {
                &&& mapped_all(rules.drop_last(), event, queue, mid)
                &&& #[trigger] rules.last().maps(event, mid, queue_after)
            };
        assert(all_messages(rules.drop_last())) by {
            assert forall|i: int| 0 <= i < rules.drop_last().len() implies #[trigger] rules.drop_last()[i] is Message by {
                assert(rules[i] is Message);
            }
        }
        lemma_mappings_produce(rules.drop_last(), event, queue, mid);
        let produced = queue_after.subrange(queue.len() as int, queue_after.len() as int);
        let before = mid.subrange(queue.len() as int, mid.len() as int);
        assert(rules[rules.len() - 1] is Message);
        let rule = rules.last()->Message_0;
        if rule.pattern.accepts(event) {
            let copy = choose|copy: M| cloned(rule.message, copy) && queue_after == mid.push(copy);
            assert(produced == before.push(copy));
            assert(queue_after.subrange(0, queue.len() as int) == mid.subrange(
                0,
                queue.len() as int,
            ));
        } else {
            assert(produced == before);
        }
    }
}

} // verus!
