//! Verified core of the mpeix schedule backend: schedule models, calendar
//! arithmetic, name validation, mapping of the university's responses,
//! in-memory caching, schedule shifts and the chat-bot logic.
pub mod calendar;
pub mod text;
pub mod pattern;
pub mod errors;
pub mod models;
pub mod names;
pub mod mapping;
pub mod api;
pub mod telegram;
pub mod vk;
pub mod cache;
pub mod shift;
pub mod cooldown;
pub mod bot;
pub mod renderer;
pub mod service;
pub mod api_macro;
