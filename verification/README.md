# zero_schema

A verified runtime for logical types laid over an existing fixed-layout byte
representation. Every access checks the exact span it works on; every
constrained write checks its complete source before the first destination
byte changes, and a rejected write leaves the destination as it was.

Every writer and capability over caller storage (`Prezeroed`,
`ExclusiveInput`, the field handles, `ArrayMut`, tagged selections) names
the storage it borrows with `storage()`. Its contracts say how the
prophesied final contents of that storage follow from what is written, and
its `lemma_released` proof gives the caller's bytes once the capability is
released: they hold what the capability's view last showed.

Layout of `src/`:

- `access`: checked shared and exclusive inputs, proof evidence, receiving storage.
- `mutation`: checked ranges and bounded byte copies.
- `wire`: endian-explicit and native scalar wires, Boolean and string wires.
- `strings`, `codec`: bounded UTF-8, C and wide strings (proof, preflight, commit, decode, encode).
- `array`, `handles`: array views and field mutation capabilities (scalar, bytes, string, optional).
- `tagged`: external-tag payload selection and payload-before-tag commits.
- `decode`, `encode`: decode inputs and zero-filled encode destinations.
- `schema`: the traits generated schema types implement, the sealed scalar
  wire codecs, scalar-enum decode and encode, and wire stride arithmetic.
- `layout`, `error`, `validation`: diagnostic layout metadata, errors and
  their text; `format_error_chain` walks a chain of error links once, taking
  the path segments in order and the leaf text of the deepest link.
- `report`: the fixed-slot observation report exchanged with a foreign producer.
- `harness`: status and capacity decisions around the foreign conformance entry points.
- `__private`: the adapter traits implemented by generated schema support.
- `frontend`: the rules a conformance model must follow (registrations,
  references, external tag wiring, acyclicity, optional eligibility, case
  identities, report keys, reachability); `validate_model` accepts a model
  exactly when every rule holds and otherwise names the first broken rule,
  taking the schema declarations one by one and then the cases one by one.
- `conformance`: the conformance model, the generator of the C++ layout
  declarations and assertions (`Gen::lower_field`, `Gen::schema`), and the C++
  expressions for layout metrics (`metric_expr`) and observations (`obs_expr`),
  each stated as exact text over the model.
- `cases`: `parse_value`, the value syntax of conformance cases read from a
  token tree; it accepts exactly the token sequences that are the syntax of a
  value.
- `attributes`: `attrs`, the attribute grammar of schema declarations
  (documentation, accepted derives, the naming allowance, `repr`, the `zero`
  options); it accepts exactly the attribute lists the grammar admits.
- `corpus`: `classify` and `read_corpus`, the declaration grammar of the schema
  corpus (imports, records, tagged and scalar enums, field types and their
  options, the root registry) over a plain syntax model; it accepts exactly
  the corpora the grammar admits and states the schemas they declare.
- `case_list`: `read_cases`, the grammar of the case list (identities, roots,
  native markers, values, layout entries and observations); it accepts
  exactly the case files the grammar admits.
- `staging`: `emit_value`, the C++ statements that stage a case's value into
  fixture bytes, `layout_case_arms`, the layout report arm of each case, and
  `emit_abi`, the foreign entry points that dispatch on the case identity,
  each stated as exact text over the model and layout metadata.

`app/` holds what stays outside the verified library: the calls into the C++
producer, and the reading of the schema corpus and case list with `syn`,
whose syntax trees it converts one for one into the library's syntax model
and token trees.
