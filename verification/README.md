# iron_fauna

The rules of IRON FAUNA, a creature-collector RPG, as a library verified with
Verus: the content model (species, graftware, world maps, settlements,
factories, quests) and its consistency checks, the player's profile (roster
and party budget, inventory, duels, quests, story flags, the world ledger),
overworld movement, and what a finished battle does to a save.

- `src/` — the verified library. Every public function states what it returns
  or changes in its `ensures`; laws that span several functions are public
  proof functions (`party_removal_frees_slots`, `party_reorder_keeps_slots`,
  `gated_rule_fires_once`, `validated_world_is_walkable`,
  `ascending_pools_agree`, `pooled_outfits_place`).
- `app/` — a headless program around it: reads the content from JSON, checks
  the float-valued tuning the rules do not read, starts a new game and can
  write it to a save file.
- `tests/` — scenarios on a small hand-built content set.

Float-valued numbers (combat tuning, bond, relapse risk) are carried by the
rules as the bits of an `f32`, unread; the arithmetic on them lives in `app/`.
A finished battle names the creatures whose bond grows (`bonded`), and
`app/numbers.rs` grows it.

Registries, quest logs, ring ranks, the bag and story flags are keyed by
text. They are `StrMap` and `StrSet` (`src/collections.rs`), small vectors of
entries whose views are a `Map<Seq<char>, V>` and a `Set<Seq<char>>`: Verus
states nothing useful of a `HashMap` or `HashSet` keyed by `String` (not even
the length after one insert), and the order in which those are walked is not
fixed, so contracts over them could not say which entry a lookup or a scan
finds.
