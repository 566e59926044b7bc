pub mod action;
pub mod cell;
pub mod cells;
pub mod cell_type;
pub mod chunk;
pub mod config;
pub mod direction;
pub mod gen;
pub mod group;
mod outside;
pub mod pos;
pub mod position;
pub mod random;
pub mod size;
pub mod true_mod;
pub mod update;
pub mod world_state;
