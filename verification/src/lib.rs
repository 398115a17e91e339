//! MorReel: the editing core of a portrait (9:16) reel editor.
//!
//! Times are whole ticks (see [`time`]), gains and rates are whole thousandths,
//! so every edit is exact integer arithmetic. Each module states what its
//! functions do over plain mathematical models; windows, files, the network and
//! the renderer live in the application around this library.

pub mod time;
pub mod text;
pub mod sorting;
pub mod keyframes;
pub mod model;
pub mod track;
pub mod edges;
pub mod magnet;
pub mod lanes;
pub mod editor;
pub mod groups;
pub mod moves;
pub mod cuts;
pub mod trims;
pub mod holds;
pub mod paths;
pub mod dialog;
pub mod drop;
pub mod autocut;
pub mod items;
pub mod looks;
pub mod knobs;
pub mod clipboard;
pub mod adds;
pub mod sound;
pub mod playback;
pub mod queues;
pub mod titles;
pub mod mix;
pub mod monitor;
pub mod drags;
pub mod inspect;
pub mod beds;
pub mod cards;
pub mod ruler;
pub mod live;
pub mod icon;
pub mod hub;
pub mod palette;
pub mod shelf;
pub mod tiles;
pub mod shortcuts;
pub mod workspace;
pub mod project;
pub mod saved;
pub mod otio;
pub mod menus;
pub mod upload;
