use glorious::{
    dispatch, pump, Behavior, BoxedInputMapper, Color, Event, Game, InputManager, InputPattern,
    Phase, QuitReason, Request, Stage, KEYCODE_ESCAPE,
};
use std::cell::RefCell;

#[derive(Clone, Copy, Debug, PartialEq)]
enum Message {
    Increment,
    Quit,
    Escape,
    Tick(u32),
    Named(char),
    Echo(char),
}

struct State {
    counter: u32,
    frame: u32,
    handled: Vec<(u32, Message)>,
}

fn fresh() -> State {
    State { counter: 0, frame: 0, handled: Vec::new() }
}

struct Canvas {
    drawn: Vec<u32>,
}

/// Counts the `Increment` messages it handles and sends one when it is
/// initialized and one with every update.
struct Counter;

impl Behavior<State> for Counter {
    type Message = Message;
    type Surface = Canvas;

    fn initialize(&mut self, _state: &mut State, queue: &mut Vec<Message>) {
        queue.push(Message::Increment);
    }

    fn update(&mut self, _state: &mut State, queue: &mut Vec<Message>) {
        queue.push(Message::Increment);
    }

    fn handle(&mut self, state: &mut State, message: Message, _queue: &mut Vec<Message>) {
        if message == Message::Increment {
            state.counter += 1;
        }
    }

    fn render(&mut self, state: &State, surface: &mut Canvas) {
        surface.drawn.push(state.counter);
    }
}

/// Notes which message it handles in which frame. Answers a named message
/// with its echo, and sends the number of the frame with every update.
struct Recorder {
    first: Vec<Message>,
}

impl Behavior<State> for Recorder {
    type Message = Message;
    type Surface = Canvas;

    fn initialize(&mut self, _state: &mut State, queue: &mut Vec<Message>) {
        for message in &self.first {
            queue.push(*message);
        }
    }

    fn update(&mut self, state: &mut State, queue: &mut Vec<Message>) {
        state.frame += 1;
        queue.push(Message::Tick(state.frame));
    }

    fn handle(&mut self, state: &mut State, message: Message, queue: &mut Vec<Message>) {
        state.handled.push((state.frame + 1, message));
        if let Message::Named(name) = message {
            queue.push(Message::Echo(name));
        }
    }

    fn render(&mut self, _state: &State, _surface: &mut Canvas) {}
}

struct Silent;

impl InputManager<Message> for Silent {
    fn handle(&self, _event: &Event, _queue: &mut Vec<Message>) {}
}

/// Notes every event it is handed, and maps quit events and the escape key.
struct Noting {
    seen: RefCell<Vec<Event>>,
}

impl InputManager<Message> for Noting {
    fn handle(&self, event: &Event, queue: &mut Vec<Message>) {
        self.seen.borrow_mut().push(*event);
        match event {
            Event::Quit { .. } => queue.push(Message::Quit),
            Event::KeyDown { keycode: Some(KEYCODE_ESCAPE), .. } => queue.push(Message::Escape),
            _ => {}
        }
    }
}

fn escape() -> Event {
    Event::KeyDown {
        timestamp: 0,
        window_id: 1,
        keycode: Some(KEYCODE_ESCAPE),
        scancode: Some(41),
        keymod: 0,
        repeat: false,
    }
}

fn letter(keycode: i32) -> Event {
    Event::KeyDown {
        timestamp: 0,
        window_id: 1,
        keycode: Some(keycode),
        scancode: None,
        keymod: 0,
        repeat: false,
    }
}

/// Steps the game as a host would. The n-th poll finds the n-th list of
/// `script`; when the script is used up and the game polls again, or when the
/// game stops, the requests come back in the order in which they were made.
/// A sleep takes as long as asked, and the work between two steps takes `work`.
fn host<B, I, F>(
    game: &mut Game<Message>,
    script: Vec<Vec<Event>>,
    work: u64,
    state: &mut State,
    manager: &I,
    behavior: &mut B,
    surface: &mut Canvas,
    on_quit: &F,
) -> Vec<Request>
where
    B: Behavior<State, Message = Message, Surface = Canvas>,
    I: InputManager<Message>,
    F: Fn(QuitReason) -> bool,
{
    host_until(game, script, work, state, manager, behavior, surface, on_quit, &never)
}

/// No message ends the game.
fn never(_message: &Message) -> bool {
    false
}

/// The message `Quit` ends the game.
fn is_quit(message: &Message) -> bool {
    *message == Message::Quit
}

/// As `host`, with a test for the messages that end the game.
fn host_until<B, I, F, Q>(
    game: &mut Game<Message>,
    script: Vec<Vec<Event>>,
    work: u64,
    state: &mut State,
    manager: &I,
    behavior: &mut B,
    surface: &mut Canvas,
    on_quit: &F,
    is_quit_message: &Q,
) -> Vec<Request>
where
    B: Behavior<State, Message = Message, Surface = Canvas>,
    I: InputManager<Message>,
    F: Fn(QuitReason) -> bool,
    Q: Fn(&Message) -> bool,
{
    let mut requests = Vec::new();
    let mut script = script.into_iter();
    let mut events = Vec::new();
    let mut now: u64 = 0;
    loop {
        let request =
            game.step(now, events, state, manager, behavior, surface, on_quit, is_quit_message);
        events = Vec::new();
        requests.push(request);
        now += work;
        match request {
            Request::Poll => match script.next() {
                Some(found) => events = found,
                None => return requests,
            },
            Request::Sleep(pause) => now += pause,
            Request::Stop => return requests,
            Request::Clear(_) | Request::Present => {}
        }
    }
}

fn quiet(frames: usize) -> Vec<Vec<Event>> {
    vec![Vec::new(); frames]
}

#[test]
fn a_new_game_is_created_and_clears_to_white() {
    let game: Game<Message> = Game::new(60, 0);
    assert_eq!(game.stage(), Stage::Created);
    assert_eq!(game.clear_color(), Color(0xff, 0xff, 0xff, 0xff));
    let game: Game<Message> = Game::with_clear_color(Color(1, 2, 3, 4), 60, 0);
    assert_eq!(game.stage(), Stage::Created);
    assert_eq!(game.clear_color(), Color(1, 2, 3, 4));
}

#[test]
fn stages_belong_to_phases() {
    assert_eq!(Stage::Created.phase(), Phase::Created);
    assert_eq!(Stage::Opening.phase(), Phase::Initializing);
    assert_eq!(Stage::Unveiling.phase(), Phase::Initializing);
    assert_eq!(Stage::Clearing.phase(), Phase::Polling);
    assert_eq!(Stage::Polling.phase(), Phase::Polling);
    assert_eq!(Stage::Drawing.phase(), Phase::Rendering);
    assert_eq!(Stage::Showing.phase(), Phase::Rendering);
    assert_eq!(Stage::Pacing.phase(), Phase::Rendering);
    assert_eq!(Stage::Terminated.phase(), Phase::Terminated);
}

#[test]
fn counter_counts_one_per_frame() {
    let mut game: Game<Message> = Game::new(100, 0);
    let mut state = fresh();
    let mut surface = Canvas { drawn: Vec::new() };
    host(&mut game, quiet(5), 0, &mut state, &Silent, &mut Counter, &mut surface, &|_| true);
    assert_eq!(state.counter, 5);
    assert_eq!(surface.drawn, vec![1, 2, 3, 4, 5]);
}

#[test]
fn counter_counts_without_regard_to_rendering() {
    let mut game: Game<Message> = Game::new(100, 0);
    let mut state = fresh();
    let mut surface = Canvas { drawn: Vec::new() };
    let mut behavior = Counter;
    host(&mut game, quiet(3), 0, &mut state, &Silent, &mut behavior, &mut surface, &|_| true);
    behavior.render(&state, &mut surface);
    behavior.render(&state, &mut surface);
    assert_eq!(state.counter, 3);
    host(&mut game, quiet(1), 0, &mut state, &Silent, &mut behavior, &mut surface, &|_| true);
    assert_eq!(state.counter, 5);
}

#[test]
fn rendering_twice_leaves_the_state_as_it_is() {
    let mut state = fresh();
    state.counter = 4;
    state.handled.push((1, Message::Increment));
    let mut surface = Canvas { drawn: Vec::new() };
    let mut behavior = Counter;
    behavior.render(&state, &mut surface);
    behavior.render(&state, &mut surface);
    assert_eq!(state.counter, 4);
    assert_eq!(state.frame, 0);
    assert_eq!(state.handled, vec![(1, Message::Increment)]);
    assert_eq!(surface.drawn, vec![4, 4]);
}

#[test]
fn the_requests_of_two_frames() {
    let mut game: Game<Message> = Game::with_clear_color(Color(0, 0, 0, 255), 100, 0);
    let mut state = fresh();
    let mut surface = Canvas { drawn: Vec::new() };
    let clear = Request::Clear(Color(0, 0, 0, 255));
    let requests =
        host(&mut game, quiet(2), 1_000_000, &mut state, &Silent, &mut Counter, &mut surface, &|_| {
            true
        });
    assert_eq!(
        requests,
        vec![
            clear,
            Request::Present,
            Request::Poll,
            clear,
            Request::Present,
            Request::Sleep(7_000_000),
            clear,
            Request::Poll,
            clear,
            Request::Present,
            Request::Sleep(6_000_000),
            clear,
            Request::Poll,
        ]
    );
    assert_eq!(game.stage(), Stage::Polling);
}

#[test]
fn the_stages_of_a_frame() {
    let mut game: Game<Message> = Game::new(100, 0);
    let mut state = fresh();
    let mut surface = Canvas { drawn: Vec::new() };
    let mut stages = vec![game.stage()];
    for _ in 0..9 {
        game.step(0, Vec::new(), &mut state, &Silent, &mut Counter, &mut surface, &|_| true, &never);
        stages.push(game.stage());
    }
    assert_eq!(
        stages,
        vec![
            Stage::Created,
            Stage::Opening,
            Stage::Unveiling,
            Stage::Polling,
            Stage::Drawing,
            Stage::Showing,
            Stage::Pacing,
            Stage::Clearing,
            Stage::Polling,
            Stage::Drawing,
        ]
    );
}

#[test]
fn a_slow_frame_does_not_sleep() {
    let mut game: Game<Message> = Game::new(100, 0);
    let mut state = fresh();
    let mut surface = Canvas { drawn: Vec::new() };
    let requests =
        host(&mut game, quiet(2), 5_000_000, &mut state, &Silent, &mut Counter, &mut surface, &|_| {
            true
        });
    let sleeps: Vec<Request> =
        requests.into_iter().filter(|r| matches!(r, Request::Sleep(_))).collect();
    assert_eq!(sleeps, vec![Request::Sleep(0), Request::Sleep(0)]);
}

#[test]
fn what_update_sends_is_handled_in_the_next_frame() {
    let mut game: Game<Message> = Game::new(100, 0);
    let mut state = fresh();
    let mut surface = Canvas { drawn: Vec::new() };
    let mut behavior = Recorder { first: Vec::new() };
    host(&mut game, quiet(4), 0, &mut state, &Silent, &mut behavior, &mut surface, &|_| true);
    assert_eq!(
        state.handled,
        vec![(2, Message::Tick(1)), (3, Message::Tick(2)), (4, Message::Tick(3))]
    );
    assert_eq!(state.frame, 4);
}

#[test]
fn messages_are_handled_in_the_order_of_the_queue() {
    let mut game: Game<Message> = Game::new(100, 0);
    let mut state = fresh();
    let mut surface = Canvas { drawn: Vec::new() };
    let mut behavior = Recorder {
        first: vec![Message::Named('a'), Message::Named('b'), Message::Named('c')],
    };
    host(&mut game, quiet(2), 0, &mut state, &Silent, &mut behavior, &mut surface, &|_| true);
    assert_eq!(
        state.handled,
        vec![
            (1, Message::Named('a')),
            (1, Message::Named('b')),
            (1, Message::Named('c')),
            (2, Message::Echo('a')),
            (2, Message::Echo('b')),
            (2, Message::Echo('c')),
            (2, Message::Tick(1)),
        ]
    );
}

#[test]
fn messages_from_input_are_handled_behind_those_of_the_last_update() {
    let mut game: Game<Message> = Game::new(100, 0);
    let mut state = fresh();
    let mut surface = Canvas { drawn: Vec::new() };
    let mut behavior = Recorder { first: Vec::new() };
    let mut mapper: BoxedInputMapper<Message, fn() -> Message, Silent> = BoxedInputMapper::new();
    mapper.add_pattern(InputPattern::key_pressed(1, 97, false, None), Message::Named('a'));
    mapper.add_pattern(InputPattern::key_pressed(1, 98, false, None), Message::Named('b'));
    let script = vec![vec![], vec![letter(98), letter(97)], vec![]];
    host(&mut game, script, 0, &mut state, &mapper, &mut behavior, &mut surface, &|_| true);
    assert_eq!(
        state.handled,
        vec![
            (2, Message::Tick(1)),
            (2, Message::Named('b')),
            (2, Message::Named('a')),
            (3, Message::Echo('b')),
            (3, Message::Echo('a')),
            (3, Message::Tick(2)),
        ]
    );
}

#[test]
fn a_quit_event_ends_the_game_before_the_manager_sees_it() {
    let mut game: Game<Message> = Game::new(100, 0);
    let mut state = fresh();
    let mut surface = Canvas { drawn: Vec::new() };
    let mut behavior = Recorder { first: Vec::new() };
    let manager = Noting { seen: RefCell::new(Vec::new()) };
    let asked = RefCell::new(Vec::new());
    let on_quit = |reason| {
        asked.borrow_mut().push(reason);
        true
    };
    let script = vec![vec![], vec![letter(97), Event::Quit { timestamp: 5 }, letter(98)], vec![]];
    let requests =
        host(&mut game, script, 0, &mut state, &manager, &mut behavior, &mut surface, &on_quit);
    assert_eq!(requests.last(), Some(&Request::Stop));
    assert_eq!(game.stage(), Stage::Terminated);
    assert_eq!(*asked.borrow(), vec![QuitReason::Requested]);
    assert_eq!(*manager.seen.borrow(), vec![letter(97)]);
    assert_eq!(state.handled, Vec::new());
    assert_eq!(state.frame, 1);
}

#[test]
fn a_quit_event_that_is_turned_down_goes_to_the_manager_once() {
    let mut game: Game<Message> = Game::new(100, 0);
    let mut state = fresh();
    let mut surface = Canvas { drawn: Vec::new() };
    let mut behavior = Recorder { first: Vec::new() };
    let manager = Noting { seen: RefCell::new(Vec::new()) };
    let asked = RefCell::new(Vec::new());
    let on_quit = |reason| {
        asked.borrow_mut().push(reason);
        false
    };
    let script = vec![vec![Event::Quit { timestamp: 5 }, letter(98)], vec![]];
    let requests =
        host(&mut game, script, 0, &mut state, &manager, &mut behavior, &mut surface, &on_quit);
    assert_eq!(requests.last(), Some(&Request::Poll));
    assert_eq!(*asked.borrow(), vec![QuitReason::Requested]);
    assert_eq!(*manager.seen.borrow(), vec![Event::Quit { timestamp: 5 }, letter(98)]);
    assert_eq!(state.handled, vec![(1, Message::Quit), (2, Message::Tick(1))]);
}

#[test]
fn the_handler_is_told_why() {
    let mut game: Game<Message> = Game::new(100, 0);
    let mut state = fresh();
    let mut surface = Canvas { drawn: Vec::new() };
    let mut behavior = Recorder { first: Vec::new() };
    let manager = Noting { seen: RefCell::new(Vec::new()) };
    let asked = RefCell::new(Vec::new());
    let on_quit = |reason| {
        asked.borrow_mut().push(reason);
        reason == QuitReason::Requested
    };
    let script = vec![vec![escape()], vec![escape(), Event::Quit { timestamp: 1 }, escape()]];
    let requests =
        host(&mut game, script, 0, &mut state, &manager, &mut behavior, &mut surface, &on_quit);
    assert_eq!(requests.last(), Some(&Request::Stop));
    assert_eq!(
        *asked.borrow(),
        vec![QuitReason::Escape, QuitReason::Escape, QuitReason::Requested]
    );
    assert_eq!(*manager.seen.borrow(), vec![escape(), escape()]);
    assert_eq!(state.handled, vec![(1, Message::Escape)]);
}

#[test]
fn a_game_that_has_ended_stays_ended() {
    let mut game: Game<Message> = Game::new(100, 0);
    let mut state = fresh();
    let mut surface = Canvas { drawn: Vec::new() };
    let mut behavior = Recorder { first: Vec::new() };
    let script = vec![vec![Event::Quit { timestamp: 0 }]];
    host(&mut game, script, 0, &mut state, &Silent, &mut behavior, &mut surface, &|_| true);
    assert_eq!(game.stage(), Stage::Terminated);
    let events = vec![letter(97)];
    let request = game.step(9, events, &mut state, &Silent, &mut behavior, &mut surface, &|_| true, &never);
    assert_eq!(request, Request::Stop);
    assert_eq!(game.stage(), Stage::Terminated);
    assert_eq!(state.frame, 0);
    assert_eq!(surface.drawn, Vec::<u32>::new());
}

#[test]
fn events_are_read_only_in_answer_to_a_poll() {
    let mut game: Game<Message> = Game::new(100, 0);
    let mut state = fresh();
    let mut surface = Canvas { drawn: Vec::new() };
    let mut behavior = Recorder { first: Vec::new() };
    let manager = Noting { seen: RefCell::new(Vec::new()) };
    let quit = vec![Event::Quit { timestamp: 0 }];
    let request =
        game.step(0, quit.clone(), &mut state, &manager, &mut behavior, &mut surface, &|_| true, &never);
    assert_eq!(request, Request::Clear(Color(0xff, 0xff, 0xff, 0xff)));
    let request =
        game.step(0, quit.clone(), &mut state, &manager, &mut behavior, &mut surface, &|_| true, &never);
    assert_eq!(request, Request::Present);
    let request = game.step(0, quit, &mut state, &manager, &mut behavior, &mut surface, &|_| true, &never);
    assert_eq!(request, Request::Poll);
    assert_eq!(*manager.seen.borrow(), Vec::new());
}

#[test]
fn pump_hands_on_events_until_the_handler_says_to_end() {
    let manager = Noting { seen: RefCell::new(Vec::new()) };
    let mut queue = vec![Message::Increment];
    let events = vec![escape(), Event::Quit { timestamp: 0 }, letter(97)];
    let stop = pump(&manager, &|reason| reason == QuitReason::Requested, &events, &mut queue);
    assert!(stop);
    assert_eq!(queue, vec![Message::Increment, Message::Escape]);
    assert_eq!(*manager.seen.borrow(), vec![escape()]);
}

#[test]
fn pump_hands_on_every_event_when_the_handler_never_says_to_end() {
    let manager = Noting { seen: RefCell::new(Vec::new()) };
    let mut queue = Vec::new();
    let events = vec![letter(97), Event::Quit { timestamp: 0 }, escape()];
    let stop = pump(&manager, &|_| false, &events, &mut queue);
    assert!(!stop);
    assert_eq!(queue, vec![Message::Quit, Message::Escape]);
    assert_eq!(*manager.seen.borrow(), events);
}

#[test]
fn pump_without_events_does_nothing() {
    let mut queue = vec![Message::Increment];
    let stop = pump(&Silent, &|_| true, &Vec::new(), &mut queue);
    assert!(!stop);
    assert_eq!(queue, vec![Message::Increment]);
}

#[test]
fn dispatch_handles_in_order_and_sends_behind() {
    let mut state = fresh();
    let mut behavior = Recorder { first: Vec::new() };
    let mut queue = vec![Message::Increment];
    let messages = vec![Message::Named('a'), Message::Tick(9), Message::Named('b')];
    let stop = dispatch(&mut behavior, &mut state, messages, &mut queue, &never);
    assert!(!stop);
    assert_eq!(
        state.handled,
        vec![(1, Message::Named('a')), (1, Message::Tick(9)), (1, Message::Named('b'))]
    );
    assert_eq!(queue, vec![Message::Increment, Message::Echo('a'), Message::Echo('b')]);
}

#[test]
fn dispatch_stops_at_the_first_quit_message() {
    let mut state = fresh();
    let mut behavior = Recorder { first: Vec::new() };
    let mut queue = vec![Message::Increment];
    let messages = vec![
        Message::Named('a'),
        Message::Tick(9),
        Message::Quit,
        Message::Named('b'),
        Message::Quit,
    ];
    let stop = dispatch(&mut behavior, &mut state, messages, &mut queue, &is_quit);
    assert!(stop);
    assert_eq!(state.handled, vec![(1, Message::Named('a')), (1, Message::Tick(9))]);
    assert_eq!(queue, vec![Message::Increment, Message::Echo('a')]);
}

#[test]
fn dispatch_of_no_messages_does_not_stop() {
    let mut state = fresh();
    let mut behavior = Recorder { first: Vec::new() };
    let mut queue = vec![Message::Increment];
    let stop = dispatch(&mut behavior, &mut state, Vec::new(), &mut queue, &is_quit);
    assert!(!stop);
    assert_eq!(state.handled, Vec::new());
    assert_eq!(queue, vec![Message::Increment]);
}

#[test]
fn a_quit_message_ends_the_game_without_update_or_render() {
    let mut game: Game<Message> = Game::new(100, 0);
    let mut state = fresh();
    let mut surface = Canvas { drawn: Vec::new() };
    let mut behavior = Recorder {
        first: vec![Message::Named('a'), Message::Quit, Message::Named('b')],
    };
    let requests = host_until(
        &mut game,
        quiet(3),
        0,
        &mut state,
        &Silent,
        &mut behavior,
        &mut surface,
        &|_| false,
        &is_quit,
    );
    assert_eq!(
        requests,
        vec![
            Request::Clear(Color(0xff, 0xff, 0xff, 0xff)),
            Request::Present,
            Request::Poll,
            Request::Stop,
        ]
    );
    assert_eq!(game.stage(), Stage::Terminated);
    assert_eq!(state.handled, vec![(1, Message::Named('a'))]);
    assert_eq!(state.frame, 0);
    assert_eq!(surface.drawn, Vec::<u32>::new());
}

#[test]
fn a_quit_message_from_input_ends_the_game_in_its_frame() {
    let mut game: Game<Message> = Game::new(100, 0);
    let mut state = fresh();
    let mut surface = Canvas { drawn: Vec::new() };
    let mut behavior = Recorder { first: Vec::new() };
    let manager = Noting { seen: RefCell::new(Vec::new()) };
    let script = vec![vec![], vec![letter(97), Event::Quit { timestamp: 5 }], vec![]];
    let requests = host_until(
        &mut game,
        script,
        0,
        &mut state,
        &manager,
        &mut behavior,
        &mut surface,
        &|_| false,
        &is_quit,
    );
    assert_eq!(requests.last(), Some(&Request::Stop));
    assert_eq!(*manager.seen.borrow(), vec![letter(97), Event::Quit { timestamp: 5 }]);
    assert_eq!(state.handled, vec![(2, Message::Tick(1))]);
    assert_eq!(state.frame, 1);
}

#[test]
fn a_quit_message_that_initialize_sends_ends_the_first_frame() {
    let mut game: Game<Message> = Game::new(100, 0);
    let mut state = fresh();
    let mut surface = Canvas { drawn: Vec::new() };
    let mut behavior = Counter;
    let ends = |message: &Message| *message == Message::Increment;
    let requests = host_until(
        &mut game,
        quiet(3),
        0,
        &mut state,
        &Silent,
        &mut behavior,
        &mut surface,
        &|_| false,
        &ends,
    );
    assert_eq!(requests.last(), Some(&Request::Stop));
    assert_eq!(requests.len(), 4);
    assert_eq!(state.counter, 0);
}

#[test]
fn a_game_without_quit_messages_goes_on() {
    let mut game: Game<Message> = Game::new(100, 0);
    let mut state = fresh();
    let mut surface = Canvas { drawn: Vec::new() };
    let mut behavior = Recorder { first: vec![Message::Named('a')] };
    let requests = host_until(
        &mut game,
        quiet(2),
        0,
        &mut state,
        &Silent,
        &mut behavior,
        &mut surface,
        &|_| false,
        &is_quit,
    );
    assert_eq!(requests.last(), Some(&Request::Poll));
    assert_eq!(state.frame, 2);
}
