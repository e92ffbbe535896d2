pub mod card_renderer;
pub mod deck;
pub mod game;
pub mod id;
pub mod messages;
pub mod packet;
pub mod player;
pub mod registry;
mod rng;
pub mod scoreboard;
pub mod session;
pub mod state;
pub mod text;
