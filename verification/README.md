# procurement

A procurement engine — suppliers, purchase orders, requests for quotation,
goods receipts, three-way matching, contracts, budgets, supplier diversity
and punch-out catalogs — whose logic is written in Verus and proved against
its contracts.

- `src/` is the verified library. Amounts are integers: cents for money,
  millionths of a currency unit for unit prices (only line totals are
  rounded to cents), thousandths of a unit for quantities, hundredths of a star for ratings,
  hundredths of a percent for shares. Rounding is half away from zero, as
  two-decimal rounding of decimals is. `fixed.rs` holds that arithmetic,
  `keyed.rs` the maps by id, `store.rs` the store and its invariant, and one
  module per area holds the operations (`suppliers`, `orders`, `rfqs`,
  `receiving`, `contracts`, `budgets`, `catalogs`, `diversity`,
  `analytics`). `laws.rs` proves properties that span operations.
- Random ids (uuid), timestamps (chrono) and Unicode lowercasing (std) are
  the only calls the library trusts; each sits in one small function whose
  contract states what the called code guarantees.
- `app/` serves the engine over MCP on stdio (rmcp): it turns JSON requests
  into the library's requests, decimals into cents, millionths and thousandths, and the
  answers back into JSON.
- `tests/` exercises every operation on concrete values.
