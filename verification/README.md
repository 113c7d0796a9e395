# cel

Values, standard functions and variable scopes of the Common Expression
Language (CEL), verified with Verus.

- `src/common/types/`: the string and bytes values (`String`, `StrRef`,
  `Bytes`, `BytesRef`): concatenation, comparison, size, equality, and the
  standard functions `string`, `bytes`, `contains`, `startsWith`, `endsWith`,
  `matches`, with their registration in an environment.
- `src/common/value.rs`: `AnyVal`, a value of any kind, what each value stands
  for (`CelValue`), and the `Val` interface.
- `src/common/text.rs`, `src/common/order.rs`: decimal numerals, byte lists,
  substring search and the lexicographic order, with their proofs.
- `src/common/pattern.rs`: regular expressions, run by the `regex` crate.
- `src/context.rs`: nested variable scopes and custom variable resolvers.
- `src/env.rs`: the registry of function overloads.
- `app/`: `Display` adapters and the conversion of doubles to text.
