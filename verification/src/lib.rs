//! The rules of a whiteboard application, apart from its window and its disk.

pub mod editor;
pub mod export;
pub mod flight;
pub mod frames;
pub mod handle;
pub mod hash;
pub mod hud;
pub mod input;
pub mod inspect;
pub mod item;
pub mod kanban;
pub mod library;
pub mod links;
pub mod menubar;
pub mod mesh;
pub mod mindmap;
pub mod note;
pub mod options;
pub mod path;
pub mod push;
pub mod readback;
pub mod scalar;
pub mod session;
pub mod text;
pub mod worker;
