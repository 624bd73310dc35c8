# Kennedy orchestration

Kennedy is an assistant that talks with people in a browser and over Telegram, remembers
what it learns in a graph of nodes, and keeps a journal of every session. This crate holds
the rules by which its sessions run, written in Verus and proved.

* `src/` is the library. Every decision of a session, of the worker that runs sessions, and
  of the services around them is a function from plain values to plain values, with a
  contract. Laws that span several functions are public proof functions beside them.
* `tests/` runs the library on concrete values.
* `app/` is the ordinary Rust around the library: it keeps the journal, talks to the
  services and the network, and performs what the library decides.

Documents are `json::Json`, with a mathematical view in which the order of an object's
members does not count. Journals and stores come in as lists of boxes, staged objects and
loaded nodes. The time, fresh identifiers and answers from outside are arguments.
