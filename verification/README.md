# darwin-vxlan

A userspace L2 VXLAN tunnel for macOS: Ethernet frames travel between hosts
over UDP in VXLAN encapsulation (RFC 7348), and Apple's vmnet framework provides
the bridge on the host side.

The rules of the tunnel are a library that performs no I/O and is verified with
Verus:

- `src/packet.rs`: the VXLAN header, wrapping and unwrapping of frames.
- `src/bridge.rs`: bridge names, the reservation of bridge units, the search for
  the bridge that vmnet created.
- `src/ifconfig.rs`, `src/text.rs`: what `ifconfig` prints and is given.
- `src/addr.rs`, `src/peer.rs`, `src/cli.rs`: addresses, peers and the command
  line.
- `src/setup.rs`, `src/setup_laws.rs`: the construction of a tunnel as a state
  machine, and what holds of it whatever the outside world answers.
- `src/worker.rs`: the reader, the forwarder, the receiver and the end of a run.
- `src/error.rs`: the reasons for which building a tunnel fails.

The program in `app/` performs the actions that the state machines name: it
binds the socket, runs `ifconfig`, drives vmnet and moves the packets. The C
wrapper around vmnet (`vmnet_ctx_start` and the functions beside it) is linked
from outside.

Public proof functions whose names start with `law_` state what the library
promises as a whole: that nothing is left behind by a failed construction, that
networks are isolated from each other, that every frame reaches every remote
endpoint.
