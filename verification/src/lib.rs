//! Game rules of a voxel RPG client and server: chat command
//! parsing and tab completion, chat backlog and input history, login and ban
//! decisions, voxel figure assembly, and menu/settings state transitions.

pub mod text;
pub mod chat_command;
pub mod tab_completion;
pub mod login;
pub mod chat;
pub mod chat_input;
pub mod figure;
pub mod main_menu;
pub mod controls;
pub mod forest;
pub mod beam;
pub mod coastal_house;
pub mod anim;
pub mod laws;
