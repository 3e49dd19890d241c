//! Decisions, texts and data of a Discord bot that deploys a Cloudflare Pages
//! project, fetches its logs, hands out TOTP codes and restricts who may use
//! which slash command.

pub mod commands;
pub mod text;

pub mod config;
