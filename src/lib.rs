//! Syndication of feed items to social networks: the verified core.

pub mod auth;
pub mod citation;
pub mod config;
pub mod error;
pub mod feed;
pub mod ledger;
pub mod mastodon;
pub mod network;
pub mod oauth;
pub mod shortener;
pub mod strings;
pub mod syndicate;
pub mod text;
pub mod twitter;
