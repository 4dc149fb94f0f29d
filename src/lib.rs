//! A turn-based tactics board: the tile grid, its pixel geometry, the
//! reachability highlight, the click selection protocol, the GUI feedback
//! messages and the event dispatcher that drives the handlers.

pub mod tile;
pub mod reach;
pub mod board;
pub mod game_event;
pub mod codec;
pub mod event_loop;
pub mod move_unit;
pub mod handlers;
pub mod laws;

