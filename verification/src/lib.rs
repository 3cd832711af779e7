//! A small framework for message-driven games: a paced frame loop, behaviors
//! that talk through messages, and a mapping from platform events to messages.
//!
//! The library decides; a host draws, polls, sleeps and reads the clock.

pub mod color;
pub mod event;
pub mod game;
pub mod gameobject;
pub mod input;
pub mod label;
pub mod limiter;
pub mod misc;
pub mod rect;
pub mod resources;
pub mod sprite;

pub use color::Color;
pub use event::{Event, QuitReason, KEYCODE_ESCAPE};
pub use game::{dispatch, pump, Game, Phase, Request, Stage};
pub use gameobject::{Behavior, Call, Scene};
pub use input::{
    map_key_pressed, map_key_released, map_scan_pressed, map_scan_released, BoxedInputMapper,
    InputManager, InputPattern, InputPatternKind, Mapping, MappingWith, Rule,
};
pub use label::Label;
pub use limiter::FrameLimiter;
pub use misc::Ellipsis;
pub use rect::Rect;
pub use resources::ResourceManager;
pub use sprite::{Placement, Sprite};
