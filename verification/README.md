# sl_map_tools

Tools around the Second Life world map and chat logs, with their core logic
verified by Verus.

- `src/` is the verified library:
  - `chat_log`, `system_messages`, `message_rules`, `extended_info`, `scan`,
    `viewer_links`: reading Second Life chat log lines (timestamps, avatar
    lines and status messages, and the viewer's and server's system
    messages, tried in a fixed order, first match wins);
  - `occupancy`, `components`, `slots`, `coverage`, `placement`: which of the
    nine placement slots of a map image are free for a logo or label, how
    free slots connect, and the rules for placing content into them;
  - `lookup_cache`: the steps of a region lookup through its memory and
    disk caches;
  - `color`: hex colour codes;
  - `tile_plan`, `map_tiles`, `region`: which map tiles make up a map at which
    zoom level and where each part goes, the steps of checking that a region
    exists, the names and states of the tile cache entries, the region lookup
    service's addresses and answers, and the bounding rectangle of a route's
    regions;
  - `region_overlay`: the per-region annotations (outline, grid coordinates
    and name): the text is drawn only when each region renders at least 64
    pixels across and the map holds at most 1024 regions, and where each
    region's text goes;
  - `glw`, `route_style`, `text`: value types of GLW sailing events, the
    cascade of a route's per-section style, and font names.
- `tests/` exercises the library on concrete values.
- `app/` is the command line front end: it fetches map tiles and looks up
  region names and grid coordinates (each kept in memory and on disk as
  the answers' HTTP cache headers allow), assembles the map of a grid
  rectangle or of a USB notecard's route, draws the route, logos and region
  annotations, saves it, and reports free placement slots. The rules it follows (zoom level, tile layout, cache
  states, region checks, slot analysis, placement, overlay gate) come from
  the library; it does the network, file and drawing work around them.

Calls into outside crates that the logic relies on (`sl_types`, `time`,
`ttf_parser`) stand behind small trusted wrappers whose contracts state what
those crates' sources show.
