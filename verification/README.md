# mcbe_protocol

The wire format of a Minecraft Bedrock server, verified with Verus.

- `src/protodef`: LEB128 varints, fixed-width integers (through `byteorder`),
  little strings, and the `Read`/`Write` traits on byte slices and vectors.
  `codec.rs` holds the model of the varint and its laws.
- `src/protocol`: the packets, batches of length-prefixed packets (deflate
  through `flate2`), reading and writing packets.
- `src/network`: packets read with their size and buffer, and the decisions of
  the login check (token headers decoded through `base64`).
- `src/player`: what the server answers a client with.
- `app/`: the RakNet server, JSON parsing, token signatures and floats.
