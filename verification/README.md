# mementic

The backend of a weekly meme contest on the Internet Computer: users
generate memes through an external worker, publish them, vote on the
memes of the current week with a weekly voting power, and memes are
minted as NFTs that can be listed and sold. Minting is open to a meme's
owner; it is not gated by winner entitlements.

`src/` is a Verus library: every operation is a method on an explicit
state value (`state::Backend`) with a contract, and the host hands in the
caller and the clock.

- `weeks`, `text`, `ids`, `codec`: week arithmetic, text building,
  principals, and the byte layouts of the stored id lists and counters.
- `keyed`, `ranking`: the tables the state is made of, and ranking.
- `state`, `model`: the state and the records.
- `memes`, `market`, `generation`, `reply`: publishing, the meme market,
  the administrator's bulk operations, the generation requests, and the
  reading of the generation worker's JSON reply.
- `ballot`, `voting`, `weekly`, `leaderboard`, `rollover`: votes, voting
  weeks, live and frozen leaderboards, and the weekly rollover.
- `nft`, `minting`: the NFT collection and minting.
- `canister`: installation, reset and the week settings.
- `laws`: properties that relate several operations.

`app/` is the canister around the library: the endpoints, the HTTP
outcalls, the rollover timer, the Candid records, the snapshot of the
state that is kept in stable memory across upgrades, and the floats (the
time-decayed score of the legacy leaderboards and the processing time read
from a worker reply).
