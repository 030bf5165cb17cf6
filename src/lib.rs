//! Scheduling, matching and dispatch logic of a chat bot that announces a
//! daily recipe, fires recurring reminders across time zones and speaks opted-in
//! voice-channel messages.

pub mod text;
pub mod clock;
pub mod reminder;
pub mod history;
pub mod selector;
pub mod delivery;
pub mod speech;
pub mod chance;
pub mod recipe;
pub mod music;
pub mod chat;
pub mod moderation;

use vstd::prelude::*;

verus! {

/// The data every command handler shares; the bot keeps its state in stores
/// handed to each job instead.
#[derive(Debug)]
pub struct Data {}

} // verus!
