//! Core logic of a terminal visual-novel engine: the dialogue history,
//! script preprocessing and section reading, navigation between screens,
//! save slots and their file names, the state kept by the dialogue
//! pipeline's behaviours, and the key handling of menus and pop-ups.
pub mod about;
pub mod behaviour;
pub mod character;
pub mod decimal;
pub mod dialogue;
pub mod gallery;
pub mod gameflow;
pub mod history;
pub mod menu;
pub mod popups;
pub mod preparse;
pub mod saving;
pub mod screens;
pub mod script_args;
pub mod section;
pub mod settings;
pub mod slots;
pub mod stage;
pub mod table;
pub mod text;
