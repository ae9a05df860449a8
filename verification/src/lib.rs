//! A deterministic single-tape Turing machine: a rule table, a tape that
//! grows at either end, and a transition engine with a mathematical model
//! against which every operation is proved.

pub mod text;
pub mod alphabet;
pub mod rules;
pub mod loader;
pub mod model;
pub mod machine;
pub mod lemmas;
