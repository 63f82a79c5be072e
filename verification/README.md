# evm_sqlite

Exact uint256 arithmetic and display helpers for EVM amounts stored in SQLite
as 32-byte big-endian BLOBs, verified with Verus.

- `src/` is the verified library: argument decoding (`args`), the
  `u256_add`, `u256_mul`, `u256_to_dec` functions, the `u256_sum` aggregate
  (and its older wrapping form in `u256_fns`), `format_ether`/`format_gwei`
  (`format`), the operand checks of `erc20_to_real`, decimal rendering
  (`decimal`), and the laws of the big-endian encoding (`encoding`). The
  256-bit arithmetic itself is `ruint`'s, reached through the trusted
  wrappers in `uint256`.
- `app/` registers the functions on a `rusqlite` connection and holds the
  floating-point parts (`format_usd`, the division of `erc20_to_real`).
- `tests/` runs the library on concrete values.
