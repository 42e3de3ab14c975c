# cumulus-primitives-utility

Helpers for cumulus parachains, with their rules proved by Verus.

- `src/` is the verified library:
  - `location`, `asset`, `holding`: plain forms of XCM locations, assets and
    the holding register, with `checked_sub` on the register;
  - `trader`: `TakeFirstAssetTrader`, which buys execution weight with the
    first asset of a payment, refunds unused weight and hands what is
    outstanding to the revenue handler;
  - `router`: `ParentAsUmp`, which prepares the payload of a message for the
    relay chain's upward queue and refuses every other destination; the
    caller hands only that payload to the queue;
  - `fees`: `XcmFeesToAccount`, which decides the mint of collected fees into
    a receiving account;
  - `benchmark`: the mortal era that benchmark transactions are signed with
    (calling `sp_runtime`'s `Era::mortal`).
- `app/` implements the XCM traits (`SendXcm`, `WeightTrader`, `TakeRevenue`)
  on top of the library, converting between XCM types and the library's plain
  types, and holds the node's benchmarking helpers.
- `tests/` exercises the library on concrete values.
