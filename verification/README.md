# hameg

Driver logic for the Hameg HM7044 quad power supply, verified with Verus.

- `src/status.rs`: the state kept of the four channels and its refresh from
  the answer to `READ` (voltages, output states), with its laws.
- `src/protocol.rs`: the queries and the channel-selection command and check.
- `src/output_state.rs`: the output-state words (`CV`, `CC`, `OFF`), found
  with the `regex` crate behind one trusted wrapper.
- `src/number_text.rs`: recognition of number texts, by the grammar that
  the standard library documents for `f64` parsing.
- `src/text.rs`: splitting and trimming of text.
- `src/scanner.rs`, `src/producer.rs`: discovery orders and producer
  description.
- `app/`: the panduza platform glue (serial I/O, async tasks, attributes).
