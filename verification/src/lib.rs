//! Protocol-agnostic core of the AeroWM tiling window manager: geometry,
//! layouts, workspaces, session persistence, IPC payloads, window rules,
//! key bindings, status-bar planning, file locations, layer-surface hit
//! testing and the choices made when a monitor is brought up.

pub mod backend;
pub mod bar;
pub mod canvas;
pub mod geometry;
pub mod grab;
pub mod id;
pub mod input;
pub mod ipc;
pub mod layers;
pub mod layout;
pub mod layouts;
pub mod outputs;
pub mod paths;
pub mod rules;
pub mod session;
pub mod text;
pub mod wm;
pub mod workspace;
