# earn-quest

Quests with rewards, verified with Verus. A creator registers a quest with a reward and a
verifier; users hand in proofs of their work; the verifier approves them; approved
submissions can be claimed.

- `src/` is the verified library. `storage` holds the whole contract state as one value, a
  `QuestBoard`, whose view (`BoardView`) is what every contract speaks of. `quest` registers,
  pauses and resumes (administrators only) and describes quests and answers paginated queries; `submission` takes,
  approves (one at a time or in batches) and checks the claims of submissions; `escrow`
  checks that an escrow covers a reward; `admin` lets administrators name administrators and record escrows; `validation` holds the rules and limits; `history` proves
  that a paused quest stays paused through any run of operations that does not resume it; `laws`
  proves properties that span operations (pausing and resuming undo each other, a name is
  registered once, a submission is approved once, consecutive pages join, ...).
  Every operation either succeeds with exactly the state its specification gives, or fails
  with the error its specification gives and leaves the state unchanged; batches are all or
  nothing.
- `tests/` runs the library on concrete values.
- `app/` is the Soroban contract around the library: it converts ledger values
  (`Symbol`, `Address`, `String`, `Vec`, `BytesN`) to the library's plain values, keeps the
  board in contract storage (rebuilt with the checked `QuestBoard::from_parts`), names the first
  administrator when the contract is deployed, reads the ledger time and publishes events.
