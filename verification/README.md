# dft_basic

The verified core of a fungible-token canister on the Internet Computer.

`src/` holds, with Verus contracts and proofs, the decisions that the canister
takes: the token state it keeps and how it is saved and restored across an
upgrade (`state`, over the key-value `table` and the arbitrary-size
numbers of `natural`), the policy that moves old
transactions to storage canisters (`scaling`), the handling of the calls that
follow a transaction (`calls`), and the checks and answers of the endpoints
(`endpoints`). Candid encoding and decoding stand behind trusted wrappers in
`codec`.

`app/` is the canister itself: its endpoints and upgrade hooks, the calls to
other canisters, and the ledger, which the library's functions are handed
plain values from.
