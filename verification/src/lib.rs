//! A text editor's core logic: terminal input parsing, command parsing,
//! settings editing, documents, word navigation, the framebuffer, and the
//! layout, focus and input handling of its immediate-mode UI.

pub mod fuzzy;
pub mod helpers;
pub mod navigation;
pub mod icu;
pub mod utf8;
pub mod vt;
pub mod input;
pub mod oklab;
pub mod path;
pub mod text;
pub mod tui;
pub mod apperr;
pub mod base64;
pub mod clipboard;
pub mod commands;
pub mod document;
pub mod editor;
pub mod documents;
pub mod settings;
pub mod json;
pub mod framebuffer;
pub mod simd;
pub mod web;
pub mod layout;
pub mod node_map;
pub mod mouse;
pub mod frame;
pub mod focus;
pub mod commandbar;
pub mod scrollarea;
pub mod label;
pub mod closing;
pub mod search;
pub mod menu;
pub mod textarea;
pub mod textarea_mouse;
pub mod render;
pub mod hit;
