//! Iron Fauna's game rules: creature chassis and graftware data, the player's
//! roster, inventory, quests, duels and story state, and the checks that keep
//! authored content consistent.

pub mod audio;
pub mod text;
pub mod collections;
pub mod combat;
pub mod data;
pub mod game;
pub mod model;
pub mod state;
