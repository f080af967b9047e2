//! Rules of a brick-breaking arcade game: what a contact does to a brick,
//! how the paddle moves, how the score counts, and where the playfield's
//! bodies stand. The engine that draws and simulates is left to the caller.

pub mod audio;
pub mod brick;
pub mod collision;
pub mod collision_laws;
pub mod paddle;
pub mod score;
pub mod world;
