//! Moderation engine for group conversations on a messaging network:
//! keyword rules, warn escalation, ban commands, welcome messages and
//! permission takeover, decided over plain values and proved with Verus.

pub mod commands;
pub mod config;
pub mod display;
pub mod engine;
pub mod gateway;
pub mod names;
pub mod osrelease;
pub mod paths;
pub mod registry;
pub mod rules;
pub mod runtime;
pub mod target;
pub mod text;
pub mod warn;
