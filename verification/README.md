# gdpatch

Readers and writers for Godot engine file formats and GDScript tokens, written in Verus:
each function carries a `requires`/`ensures` contract that Verus proves.

## Layout

- `src/marshalling.rs`: little-endian buffers for Godot's marshalled data.
- `src/string.rs`: Godot's string-to-integer conversions and character classes.
- `src/pack/`: the PCK pack format: `Pack::parse` reads a header and directory,
  `PackBuilder::encode` writes one (`law_pack_encode_parse`: what it writes reads back).
- `src/loaded_pack.rs`: looking up files and resource UIDs of an opened pack.
- `src/uid_cache.rs`, `src/config_file/`: the UID cache and the extension list.
- `src/engine_build.rs`: version specifiers and per-build GDScript settings.
- `src/gdscript/`: tokens; the text tokenizer (`tokenizer/text.rs`), the compiled-script
  token reader (`tokenizer/bytecode.rs`), turning tokens back into text
  (`tokenizer/reconstitute_text.rs`); the parser's precedence levels, rule table and syntax
  tree nodes (`parser/`).
- `tests/`: tests on concrete inputs.
- `app/`: what is not verified: floating-point conversions, reading packs from streams,
  serde forms of configuration types, and the editor's shared state.

Proof functions named `law_*` state properties that relate several functions (write/read
round trips, ordering of tokens, and the like).
