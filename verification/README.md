# minecraft

The wire formats and packet logic of a small Minecraft server, with their
contracts proved by Verus.

- `src/util/binary.rs`: VarInt encoding and decoding, the byte reader
  (`BinaryReader`), the writers (`BinaryWriter`, `PacketWriter`), and the
  byte encodings of numbers and texts. The reading functions are specified by
  `varint_at`, `bytes_at`, `number_at` and `string_at`, which describe a read at
  an offset of a buffer; the laws (`lemma_varint_roundtrip`,
  `lemma_string_write_read`, ...) relate what the writers write to what the
  reader reads back.
- `src/util/writer.rs`: a second writer whose `write_varint` writes the last
  seven-bit group as four bytes.
- `src/protocol/server`: packets (`Packet::parse`, with `lemma_frame_parse`
  relating it to `PacketWriter`; `ReadPacket::read_packet`, reading one from
  any byte source), the handshake, login start and status
  requests, and the pong and login answers.
- `src/protocol/{packet,handshake,ping}.rs`: a second packet, handshake and
  pong.
- `src/server`: the configuration, a second reader, packet kinds and the
  stream VarInt (`decode_stream_varint`, with `lemma_read_varint32_step`), the length
  checks of the second connection (`net::body_length`), the server list entry
  (`server::ping_entry`), and the decisions of a client session
  (`session::advance`).
- `src/types.rs`: block positions packed into 64 bits.
- `app/`: the program: TCP connections, the asynchronous server loop, logging,
  TOML configuration files and the JSON rendering of the status.
