//! Game-logic core of a 2D arena shooter in the style of Quake III:
//! the navigation graph that bots walk on, the readers of shader scripts
//! and skins, the story campaign, item pickups, damage, frags and awards,
//! the synchronisation of projectiles with the server, and the frame
//! counters of short-lived effects.  Rendering, audio, file loading and
//! everything that computes with floating-point numbers live with the
//! application that drives this crate.
pub mod nav;
pub mod tiles;
pub mod text;
pub mod shader_script;
pub mod scoreboard;
pub mod weapon;
pub mod story;
pub mod combat;
pub mod effects;
pub mod palette;
pub mod usercmd;
pub mod animation;
pub mod roster;
pub mod models;
pub mod skin;
pub mod model_shader;
pub mod items;
pub mod sync;
pub mod net_events;
