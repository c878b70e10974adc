# raknet

A RakNet transport whose rules are verified with Verus.

- `src/` is the library. It does no input or output: servers and clients are given inputs and
  polled for outputs. `server/model.rs` and `client/model.rs` say what each input makes of them,
  `server/laws.rs`, `client/laws.rs` and `handshake.rs` what holds over several inputs, and
  `server/exchange.rs` and `client/exchange.rs` what a whole exchange with a session comes to.
- `app/` is what surrounds it: a tokio server, Bevy plugins, serde helpers for times, and the
  congestion window with its floating-point estimates. The protocol that makes a stream of
  packets out of datagrams is a type of its own, which implements `protocol::Protocol`.
- `tests/` runs the library from outside.

A server or a client that needs the protocol of a session returns a step. Whoever owns the
protocol takes it and hands back what came of it:

```rust
let mut step = server.handle(RakServerInput::Datagram(buf, addr, now))?;
loop {
    step = match step {
        RakServerStep::Done => break,
        RakServerStep::Handle(addr, input) => {
            let result = protocol_of(&mut server, addr).handle(input);
            server.session_handled(addr, result)?
        }
        RakServerStep::Poll(addr) => {
            let output = protocol_of(&mut server, addr).poll();
            server.session_polled(addr, output, now)?
        }
    };
}
```

A server admits an input when the numbers that it computes for it can be told; `admits` tells
whether it does.
