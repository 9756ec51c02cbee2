# turn_based_rpg

A turn-based battle game whose characters act by rules built from tokens,
written as a Verus library with a small console front end.

## Layout

- `src/` — the verified library.
  - `action_system` — rule lines of tokens (`Check`, `TrueOrFalseRandom`,
    `Strike`, `Heal`) and the system that picks an action from them; the
    submodules hold the resolver form of the same tokens with number and
    boolean tokens.
  - `battle_system` — characters with HP and MP, and the one-on-one battle
    whose turns alternate and act by the rules.
  - `game_core`, `game_logic` — two smaller battles: one ordered by speed
    with skills, one with fixed and random damage.
  - `rule_input_model`, `rule_loader` — rule files as data, their validation,
    and their conversion into token trees.
  - `structured_token`, `type_system` — the token language and its type
    system: types, errors, a simple unifier, Hindley–Milner inference, traits,
    generics, token metadata and the two type checkers.
  - `token_converter`, `ui_core` — the rule editor's tokens, their parser,
    the editor's rows and the game's modes.
  - `name_map`, `random`, `util` — a small map keyed by names, the random
    draws, and string helpers.
- `tests/` — tests of the library.
- `app/` — the console program: JSON rule files, the speed-ordered battle's
  floating-point HP percentage, and the game loop.

The typed node converters of the token language (a registry that dispatches
on runtime type identities to node builders) are not part of this library:
the node types they build are not available to it.
