# veloren_logic

Game rules of a voxel RPG's client and server, as a library whose functions
carry contracts that are proved:

- `src/chat_command.rs`, `src/tab_completion.rs`: the chat command grammar,
  its error texts, and tab completion of a word;
- `src/chat.rs`, `src/chat_input.rs`: the chat backlog and the chat box, step
  by step and as a whole frame;
- `src/login.rs`: player UUIDs, bans, whitelist and the login decision;
- `src/figure.rs`: voxel volumes built from `.vox` models and combined;
- `src/main_menu.rs`, `src/controls.rs`: the main menu's messages and state
  machine, and the controls settings page;
- `src/forest.rs`, `src/beam.rs`, `src/coastal_house.rs`, `src/anim.rs`:
  smaller rules and types;
- `src/laws.rs`: properties that relate several calls.

`app/` holds what the library leaves to the game: conversions from the
`.vox` reader and the math crate, serialization, the login channel and the
clock, localization, the per-frame drivers, and floating-point tables.
`tests/` runs the library on concrete values.
