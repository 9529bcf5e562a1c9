//! Verified core of the dsh terminal client: composer editing, key
//! classification, staged attachments, localisation and protocol helpers.

pub mod text;
pub mod editor;
pub mod attachments;
pub mod bus;
pub mod locale;
pub mod input;
pub mod json;
pub mod strmap;
pub mod acp_auth;
pub mod events;
pub mod cordis;
pub mod app;
pub mod acp;
pub mod controller;
pub mod demo;
pub mod deepseek_logo;
pub mod slash;
pub mod elicitation;
pub mod term;
pub mod control;
