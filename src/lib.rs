//! A chunk-based world server core: terrain classification and chunk
//! assembly, a bounded least-recently-used chunk cache, the player registry,
//! autonomous entity behaviour, quests, the economy and connection admission.
pub mod ai;
pub mod analytics;
pub mod chunk_cache;
pub mod economy;
pub mod gate;
pub mod leaderboard;
pub mod geom;
pub mod grid;
pub mod players;
pub mod quests;
pub mod terrain;
pub mod wfc;
