# mini_tor

A small onion-routing network: a directory service that knows the relays, relays that carry
circuits as entry, middle or exit, and a client that offers the circuits as a SOCKS5 proxy.

`src/` is the library, verified with Verus: what every part decides, as functions from plain
values to plain values with contracts. `app/` is the program around it: sockets, HTTP, the
terminal and the browser. `tests/` runs the library on concrete values.

## The library

- `protocol`, `wire`, `types`, `net`: cells and messages, node descriptors, exit policies.
- `crypto`, `ntor`: session keys, layer ciphers, running digests, the ntor handshake.
- `discovery`: the registry of relays, the choice of paths, the service around them.
- `relay`: what a relay does about each cell, by its part in the circuit.
- `client`: building circuits, wrapping and unwrapping cells, the pool, the streams.
- `display`, `form`, `web` and the `view` and `wizard` modules: what the dashboards and the setup
  forms show and how they react.
- `text`, `bytes`, `order`, `metrics`: what the others are made of.

The laws of the network stand beside the functions they speak of as public proof functions: that a
cell the client seals is the one the exit opens, and the other way round, that both sides of a
handshake reach the same key, that a chosen path is sound, that a cell reads back as the message
written into it, and more.

## What is trusted

AES-128-CTR, SHA-256, HMAC, X25519 and random numbers come from outside crates. The few functions
that call them, in `crypto` and `discovery::path`, carry the contracts that the proofs rest on, as
do `String::push` and the reading of UTF-8 in `text`.
