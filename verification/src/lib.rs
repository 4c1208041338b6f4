//! A retained-mode widget-tree presentation engine for a small monochrome
//! display driven by a handful of physical push-buttons.
//!
//! The engine keeps a registry of per-widget layout metadata (windows), lays
//! widgets out in a single-column vertical flow under fixed-position anchors,
//! navigates focus over the visible tree, dispatches data-only actions to a
//! fixpoint, and composites cached one-bit bitmaps into one output frame.
//! A button controller classifies raw switch edges into discrete events.

pub mod action;
pub mod bitmap;
pub mod buttons;
pub mod config;
pub mod context;
pub mod controller;
pub mod display;
pub mod displaymanager;
pub mod error;
pub mod font;
pub mod iso;
pub mod lvm;
pub mod newdrive;
pub mod options;
pub mod panel;
pub mod piso;
pub mod stats;
pub mod vdrive;
pub mod version;
pub mod usb;
pub mod utils;
pub mod wifi;
