# wow_character

The character, vendor and inventory rules of a World of Warcraft world server,
written in Verus: each rule is an executable function whose contract states
what it returns, and Verus proves the code against it.

The packet handlers of a server read packets and database rows, then decide;
this crate holds the deciding part, over plain values (integers, vectors,
strings and a few records of its own).

## Layout

- `src/` — the verified library:
  - `creation`, `roster`, `login`, `login_load`, `equipment_cache`: character
    creation, the account's character list, login keys and what is loaded at
    login;
  - `slots`, `inventory`, `moving`, `items`: the player's slots, item cost
    payment plans, swaps and other item moves;
  - `vendor`, `vendor_list`, `extended_cost`, `stock`, `buying`, `purchase`,
    `trade`, `refund`, `bank`, `writes`: vendor lists, purchases, sales,
    buyback, refunds, bank slots, and the item records these write;
  - `visibility`, `gossip`, `query`, `session_flow`, `stats`: what a client is
    shown, NPC interaction, template and page text queries, hotfix records and
    player stats.
- `tests/` — tests of the library on concrete values.
- `app/` — what stays outside the proofs: the floating-point formulas and a
  driver for the page text walk.

Laws that span several calls (a swap done twice restores the inventory,
paying an item cost leaves exactly that many fewer items, a refreshed view
settles, and others) are public proof functions next to the code they speak of.
