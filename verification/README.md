# rndz

A simple rendezvous protocol to help with NAT traversal or hole punching, verified with Verus.

A rendezvous server observes the addresses of its peers and forwards their connection requests.
When both peers send packets to each other, the NAT device or firewall lets the traffic through.

- `src/` is the verified library. It reads and writes the messages, keeps the state of servers and
  clients and decides what to send, to whom and when. It owns no socket and no clock.
- `app/` runs it on real sockets.
- `tests/` runs it on plain values.

| module | what it holds |
| --- | --- |
| `wire`, `unknown`, `envelope`, `proto` | the messages, on top of the `protobuf` crate's reader and writer |
| `frame` | messages on a stream |
| `addr`, `time`, `error`, `idmap` | addresses, times, failures, the map of peers |
| `udp` | server, connector and listener over UDP |
| `tcp` | server and clients over TCP |
| `client`, `server` | a UDP pair with one socket for everything |
| `async_tcp` | a TCP client that gives up with its server connection |
| `laws` | what holds of clients and servers together |

## Usage

```sh
$ rndz server --listen-addr 0.0.0.0:8888
$ rndz client --id c1 --server-addr rndz_server:8888
$ rndz client --id c2 --server-addr rndz_server:8888 --remote-peer c1
```

With `--tcp` the clients use TCP instead of UDP.

## What is trusted

The wrappers in `src/wire.rs` say what calls into the `protobuf` crate do, and `random_below` in
`src/udp/util.rs` what a draw from the `rand` crate yields. Everything else in `src/` is proved.
