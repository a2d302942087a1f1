//! Rules, data model and decisions of a desktop manager for Discord bots with
//! an AI persona: stored bot configurations, the auto-moderation engine, the
//! planning of AI tool calls and moderation actions, and the audio plumbing of
//! the realtime voice bridge.

pub mod ai;
pub mod automod;
pub mod bot;
pub mod commands;
pub mod float32;
pub mod json;
pub mod store;
pub mod text;
pub mod voice;
