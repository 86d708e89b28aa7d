# meshanger

A small end-to-end encrypted chat. A relay server keeps the room (who is in
it, under which id) and forwards sealed messages; each client seals its
messages with XChaCha20-Poly1305 under a shared master key, with a nonce and
associated data built from the sender's id and the message counter.

- `src/` is the verified library: message sealing (`encryption`), the
  packets, the server's room and its handling of packets, the client's
  session, its handling of packets and its typed commands, master keys as
  hexadecimal text, and the character-level text handling the commands use.
- `tests/` exercises the library on concrete values.
- `app/` is the program around it: the terminal loops, the TCP connections,
  the wire encoding of packets, and the start-up banner's coin flips.
  Run it with `server` as its argument for the server, without for a client.
