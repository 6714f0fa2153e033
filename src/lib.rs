//! A terminal character-sheet dashboard's core: a terrain map built from
//! sampled noise, the checks a stored map document must pass, the poller that
//! merges key input with a fixed-rate tick, and the application state machine.
pub mod controller;
pub mod events;
pub mod map;
pub mod queue;
pub mod terrain;
