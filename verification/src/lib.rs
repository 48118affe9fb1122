//! Verified core of the clip workstation: text and path models, the local
//! media server's request handling, FFmpeg command planning, audio routing
//! and selection, the publish run's stages, and the decision rules of the
//! desktop app.

pub mod text;
pub mod models;
pub mod ids;
pub mod paths;
pub mod media;
pub mod media_server;
pub mod startup;
pub mod commands;
pub mod player;
pub mod library;
pub mod recorder;
pub mod tray;
pub mod encoders;
pub mod publish;
pub mod ui;
pub mod dialogs;
pub mod hotkeys;
