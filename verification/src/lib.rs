//! Verified core of the Coral blacklist service: the tag catalogue, replay
//! references, the review-thread message format and voting rules, access and
//! permission rules, the API's gates and answers, the stats views' caches and
//! periods, and the texts the bot posts.
use vstd::prelude::*;

pub mod access;
pub mod accounts;
pub mod add_flow;
pub mod admin_list;
pub mod api;
pub mod auth;
pub mod clock;
pub mod evidence_thread;
pub mod guild;
pub mod member_panel;
pub mod mod_log;
pub mod name_cache;
pub mod replay;
pub mod responses;
pub mod review;
pub mod review_block;
pub mod review_edit;
pub mod review_format;
pub mod review_layout;
pub mod review_messages;
pub mod review_state;
pub mod session;
pub mod session_menu;
pub mod stats_card;
pub mod tag_actions;
pub mod tag_change;
pub mod tag_view;
pub mod tags;
pub mod text;
pub mod view_cache;

verus! {
} // verus!
