//! Stories in the Ink format: the text asset, the values of story variables
//! and the running session.

pub mod ink_asset;
pub mod ink_story;

pub mod variable;
