# revenue_bonds

A revenue-bond contract whose decision logic is verified with Verus.

A bond is issued by a business (the issuer) to an owner under its terms. For every period
the owner redeems, the contract reads the revenue attested for the issuer in that period
and pays the fixed minimum plus the revenue share (revenue times share in basis points,
divided by ten thousand, with saturating arithmetic), at most the per-period maximum and
never more than what remains of the face value. A period can be redeemed once; a bond that
is fully redeemed or defaulted accepts no more redemptions.

- `src/`: the verified library: payment formula, state model, invariant, per-bond
  transitions, the contract state and its operations, and the laws proved about them.
- `tests/`: executable tests of the library.
- `app/`: the Soroban deployment: contract storage, authorization, attested-revenue lookup
  and token transfers around the library.
