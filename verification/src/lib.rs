//! Verified core logic of the Second Life map tools: placement-slot
//! occupancy analysis, GLW value types, chat log parsing and the helper
//! rules of the map renderer and its command line front-end.
use vstd::prelude::*;

pub mod chars;
pub mod chat_log;
pub mod color;
pub mod components;
pub mod coverage;
pub mod extended_info;
pub mod glw;
pub mod lookup_cache;
pub mod map_tiles;
pub mod message_rules;
pub mod occupancy;
pub mod placement;
pub mod region;
pub mod region_overlay;
pub mod scan;
pub mod route_style;
pub mod slots;
pub mod system_messages;
pub mod text;
pub mod tile_plan;
pub mod viewer_links;

verus! {
} // verus!
