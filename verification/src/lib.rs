//! Renderer-independent overlay logic for a multiboxing tool: client
//! partitioning, trigger timers and texts, notifications, combat awareness,
//! toast fading and the pixel geometry that renderers draw.

pub mod appearance;
pub mod casting;
pub mod client_controller;
pub mod clients;
pub mod combat_awareness;
pub mod compositor_policy;
pub mod control_bridge;
pub mod dps_overlay;
pub mod event_loop;
pub mod geometry;
pub mod layout;
pub mod lifecycle;
pub mod log_events;
pub mod menu;
pub mod log_sources;
pub mod notification_layout;
pub mod notifications;
pub mod pid_map;
pub mod pip_interaction;
pub mod pip_transition;
pub mod runtime;
pub mod scene_layout;
pub mod scenes;
pub mod scope;
pub mod sorting;
pub mod surfaces;
pub mod telemetry;
pub mod text;
pub mod timer_controller;
pub mod timers;
pub mod trigger_text;
pub mod window_styles;
pub mod toast;
pub mod hosts;
pub mod in_game_button;
pub mod interaction;
pub mod labels;
