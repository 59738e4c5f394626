# swift_mt_message

Parsing, writing and validation of SWIFT MT financial messages, written in
Verus: every function of the library carries a contract, and Verus proves
that the code meets it.

## Layout

- `src/` — the verified library.
  - `blocks`, `headers`, `block4`, `field_map`: the five blocks of a message,
    the header blocks, and the `:TAG:value` fields of block 4 with their
    positions.
  - `parser/`: the parser of whole messages, the bookkeeping of consumed
    fields, and the split of a body into its sequences.
  - `message_parser`: message layouts (rules by tag, by field number with
    option letters, repeated items) and what a layout takes from a body.
  - `messages/`: one module per message type, each with its layout, its
    writer, its network rules and a proof that writing and parsing again
    gives back the fields.
  - `round_trip`, `sequence_round_trip`: the general laws of reading back
    what was written, for flat layouts and for layouts with repeated items.
  - `validation`, `json_text`, `swift_message`: business-rule validation
    against the JSONLogic rules of each message type; the rules are read
    with `serde_json` and each condition is evaluated with `datalogic-rs`.
  - `swift_error_codes`, `shared_validation`, `name_field`, `slash_handler`,
    `utils`, `sample`, `scenario_config`, `plugin`: error codes, shared field
    checks, name and address fields, slash prefixes, helpers, sample data
    and the parsing plugin.
- `tests/` — the tests of the library.
- `app/` — what the library leaves to its callers: the environment, scenario
  files, sample generation, and the two rules that compare amounts as
  floating-point numbers.
