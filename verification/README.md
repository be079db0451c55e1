# zcash-scanner

Internal, stateless scanning service for shielded Zcash wallets. Given a unified full viewing
key and a range of heights it reports what the wallet received and spent (values, heights and
transaction identifiers, never memos), and it tells whether one of the spends carries a
challenge memo.

| Method | Path | In | Out |
|---|---|---|---|
| POST | `/zcash/scan` | `{ ufvk, from_height, to_height }` | `{ received[], spent[], scanned_to_height }` |
| POST | `/zcash/verify-spend` | `{ ufvk, expected_memo, from_height, to_height? }` | `{ matched: { txid, height } \| null }` |
| GET | `/healthz` | | `ok` |

## Layout

- `src/` is the library. Everything in it is verified with Verus: configuration, the check of
  the shared secret, error responses, the retry policy, the scan and the verification of spends.
  It performs no input or output. Work on a lightwalletd server is described by state machines
  that say what they wait for and take the reply.
- `src/history.rs` and `src/balance.rs` state what holds of a scan as a whole.
- `src/backend.rs` holds the calls into the Zcash crates, with the contracts that are relied on.
- `app/` is the service: HTTP endpoints, the process environment and the gRPC connection.
- `tests/` runs the library, with notes and transactions that are encrypted on the spot.

## Configuration

| Variable | Required | Default |
|---|---|---|
| `SCANNER_SHARED_SECRET` | yes | |
| `LIGHTWALLETD_URL` | | `https://zec.rocks:443` |
| `SCANNER_BIND_ADDR` | | `0.0.0.0:8080` |
| `ZCASH_NETWORK` | | `main` |
| `SCANNER_MAX_SCAN_BLOCKS` | | `2000000` |

Every request has to carry the shared secret in `X-Scanner-Auth`. Bind the service to private
networking only.
