# spin-trigger-remote

A Spin trigger that lets clients call the functions of WebAssembly components over HTTP, with JSON
for arguments and results.

    GET  /                                      the components
    GET  /<component>                           the functions that a component exports
    POST /<component>/<function>                calls a function
    POST /<component>/<interface>/<function>    calls a function of an interface

The body of a call is a JSON array with one item for each parameter; an empty body stands for an
empty array. The answer is a JSON array with the results, or the text of an error.

## Layout

- `src/` is the library, verified with Verus. `exchange` decides, step by step, what to ask of the
  host and what to reply; `calls` reads arguments and writes results; `decode` and `encode` are the
  mapping between JSON and the values of the component model; `listing` lays out the answers to
  queries; `laws` and `exchange_laws` state what holds of all of these together.
- `src/document.rs` is the boundary to `serde_json`: what the proofs take from it on trust is
  stated there, except for `String::push`, which `src/text.rs` states.
- `app/` is the program: the server, and the conversions between the host's values and the
  library's. Floating-point values are converted there: the library holds an argument by the JSON
  number that was given for it, and a result by the JSON number that writes it.
- `tests/` runs the library on concrete values.
