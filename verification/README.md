# WhatSpace

A delay-tolerant network of named nodes. A node stores the bundles it is given,
carries them, and forwards them to the nodes that a registry lists as connected.
Before it forwards, it asks each of these nodes which bundles it holds already
(anti-entropy), and sends only what is missing. A bundle that
could be handed to none of the nodes that lack it stays pending and goes out with a
later one. An acknowledgement clears the bundle that it
names wherever it passes.

* `src/` is the library, verified with Verus.
  * `routing/` holds nodes and bundles, the storage of a node, its routing engine,
    and store-carry-forward. `routing/laws.rs` states what holds of them together.
  * `network/` holds the registry, and the conversations of a node with the
    registry and with its peers. `network/laws.rs` states what holds of them.
  * `cli/` holds the commands and the lines that ask for them, with `cli/laws.rs`.
  * `ident.rs`, `time.rs` and `text.rs` hold identifiers, points in time and texts.
* `tests/` runs the library.
* `app/` is the program: sockets, threads, the terminal and the formats on the wire.

Conversations are state machines: the library says from a state and an event what
the next state is and what is to be done, and the program does it.
