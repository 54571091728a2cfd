//! Seven small generative pieces, and the integer logic that runs them, verified.

pub mod grid;
pub mod keys;
pub mod payload;
pub mod text;

pub mod parrish;
pub mod pond;
pub mod popped;
pub mod rally;
pub mod spectacle;
pub mod starry;
pub mod thunderhead;
