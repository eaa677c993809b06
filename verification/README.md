# open_rts

The rules of an open real-time-strategy skirmish, written in Verus and
verified: the online war room and its host-authoritative protocol (seating,
reconnection, grace periods and forfeits, command replay protection, snapshot
ordering, ownership checks on every command that names units or structures,
once-per-tick structure actions, support-power gates and cooldowns, and the
host's checks on each kind of command), the production queue (payment,
refunds, per-producer limits, how each frame's production time is spent,
selling), saved settings and the replay timeline, selection gestures and
control groups, unit orders and the per-frame steps of contact orders,
attack-moves, patrols and garrisons, and the walkability grid.

- `src/` is the verified library. Every public function states what it
  returns or changes; the `law_*` proof functions state properties that span
  several calls.
- `tests/` runs the library on concrete scenarios.
- `app/` holds what stays outside the proofs: files on disk, the wire
  encoding of the online protocol, the floating-point geometry of path
  finding, and the frame loop that feeds the build queue to the verified
  production decisions.
