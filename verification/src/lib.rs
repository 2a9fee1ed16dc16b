//! The logic of a game client for a simulated archipelago at war.
//!
//! The client shows a world that is simulated elsewhere, and turns keys and clicks into orders. What
//! it reads of the world is a snapshot of plain values ([`world`]); what it asks for is a list of
//! commands ([`client`]). Drawing, windows, files and the simulation itself are outside.
//!
//! - Recordings: [`types`], [`value`], [`action_kind`], [`action_codec`], [`recording`],
//!   [`recording_laws`], [`codec_laws`], [`refusal_laws`].
//! - State and input: [`client`], [`unit_set`], [`keyboard`], [`keyboard_laws`], [`key_laws`], [`compose`],
//!   [`mouse`], [`camera`], [`camera_laws`], [`fit_laws`], [`startup`], [`session_laws`].
//! - The course of a frame: [`sim_control`], [`log_laws`], [`newspaper`], [`screenshot`].
//! - Panels: [`region_panel`], [`target_panels`], [`unit_panel`], [`policy_panel`],
//!   [`diplomacy_panel`], [`speed_panel`], [`panel_laws`], [`order_laws`], [`rejection`].
//! - Texts: [`text`], [`event_text`], [`event_laws`], [`faction_text`], [`info_text`], [`text_laws`].
//! - The map: [`map_mode`], [`map_setup`], [`map_geometry`], [`layout`], [`layout_laws`], [`label_laws`],
//!   [`pull_laws`], [`visuals`], [`overlay`], [`palette`], [`fill_laws`],
//!   [`place_laws`].
//! - Numbers: [`quantity`], [`arithmetic`], [`arithmetic_laws`], [`rounding`],
//!   [`numeral_laws`], [`geometry`], [`ranking`].
//! - Checks for callers: [`soundness`].
pub mod action_codec;
pub mod action_kind;
pub mod arithmetic;
pub mod arithmetic_laws;
pub mod camera;
pub mod camera_laws;
pub mod client;
pub mod codec_laws;
pub mod compose;
pub mod diplomacy_panel;
pub mod event_laws;
pub mod event_text;
pub mod faction_text;
pub mod fill_laws;
pub mod fit_laws;
pub mod geometry;
pub mod info_text;
pub mod key_laws;
pub mod keyboard;
pub mod keyboard_laws;
pub mod label_laws;
pub mod layout;
pub mod layout_laws;
pub mod log_laws;
pub mod map_geometry;
pub mod map_mode;
pub mod map_setup;
pub mod mouse;
pub mod newspaper;
pub mod numeral_laws;
pub mod order_laws;
pub mod overlay;
pub mod palette;
pub mod panel_laws;
pub mod place_laws;
pub mod policy_panel;
pub mod pull_laws;
pub mod quantity;
pub mod ranking;
pub mod recording;
pub mod recording_laws;
pub mod refusal_laws;
pub mod region_panel;
pub mod rejection;
pub mod rounding;
pub mod screenshot;
pub mod session_laws;
pub mod sim_control;
pub mod soundness;
pub mod speed_panel;
pub mod startup;
pub mod target_panels;
pub mod text;
pub mod text_laws;
pub mod types;
pub mod unit_panel;
pub mod unit_set;
pub mod value;
pub mod visuals;
pub mod world;
