//! Playback-control core of a streaming music client, with machine-checked
//! contracts.
//!
//! * [`queue`] holds the play queue and [`queue_laws`] what holds of every
//!   queue; [`service`] holds the records that a queue is made of.
//! * [`player`] is the state machine that takes [`actions`] one at a time
//!   and answers with [`notification`]s; [`broadcast`] hands every
//!   notification to every subscriber, in order.
//! * [`wire`] turns notifications, queues and actions into structured
//!   messages and back; [`uri`] reads addresses that name what to play.
//! * [`client`] and [`config`] hold the logic of the catalogue client:
//!   requests, credentials, and the secrets hidden in the web player.
//! * [`websocket`], [`ui`] and [`cli`] hold the decisions of the front ends.
//! * [`release`] describes releases as the catalogue does; [`text`] holds
//!   helpers on text; [`outside`] holds the calls into other crates.

pub mod actions;
pub mod broadcast;
pub mod cli;
pub mod client;
pub mod config;
pub mod notification;
pub mod outside;
pub mod player;
pub mod queue;
pub mod queue_laws;
pub mod release;
pub mod service;
pub mod text;
pub mod ui;
pub mod uri;
pub mod websocket;
pub mod wire;
