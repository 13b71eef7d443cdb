//! Verified game rules of a ROSE Online server: quest conditions and rewards,
//! ability value changes, parties, clans, loot sharing, damage bookkeeping,
//! monster spawn tactics, NPC AI conditions and actions, and the character
//! storage plans.

pub mod operators;
pub mod stats;
pub mod rewards;
pub mod quest;
pub mod quest_items;
pub mod trigger;
pub mod party;
pub mod storage;
pub mod items;
pub mod game_server;
pub mod command;
pub mod text;
pub mod command_line;
pub mod chat;
pub mod chat_effects;
pub mod clan;
pub mod loot;
pub mod visibility;
pub mod spawn;
pub mod ai;
pub mod ai_program;
pub mod ai_actions;
pub mod damage;
pub mod xp;
pub mod store;
pub mod bank;
pub mod bot;
pub mod login;
