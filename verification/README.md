# lightning_invoice

A verified model of BOLT #11 lightning invoices.

- `types`: raw, signed and checked invoices, tagged fields, descriptions (at most
  639 bytes) and routes (at most 12 hops).
- `bits`: bit strings of fixed-width values and their regrouping (bytes to 5-bit
  values and back).
- `fields`, `raw`: tags of tagged fields and the lookups over the known fields.
- `encoding`: the human readable part as bytes, the data part as 5-bit values, and
  the invoice hash that the signature signs.
- `signed`: public key recovery and signature checking.
- `invoice`: the semantic checks that turn a signed raw invoice into an `Invoice`.
- `external`: the trusted calls into `bitcoin_hashes`, `bech32` and `secp256k1`.

Run the tests with the outside crates linked; the proofs are checked by Verus.
