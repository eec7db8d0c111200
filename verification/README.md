# vnc_server

A VNC (RFB protocol) server. The library under `src/` holds the protocol's
codecs, pixel format conversion, the authentication schemes and providers,
the capture and connection decisions, each with a contract that Verus checks.
`app/` is the program around it: sockets, the capture and input threads, the
configuration file and the management interface.

- `src/wire.rs`: big- and little-endian integers on the wire.
- `src/protocol/`: client and server messages, the handshake, pixel formats
  and the encoders.
- `src/auth_provider/`: the providers of users and permissions.
- `src/server/`: the decisions of a client connection.
- `src/capture/`: frames, cut-outs and the capture loop's decisions.
- `src/config.rs`: the configuration and its defaults.
- `src/mgmt_server/`: what the management interface reports.
