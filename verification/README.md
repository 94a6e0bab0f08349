# ret

A simple proxy tool (HTTP proxy, TCP forwarding, Shadowsocks tunnel).

- `src/` is the verified library: parsing `scheme://host:port` addresses and
  writing `host:port` targets (`common`), the command line (`cli`), the error
  type (`error`), deciding what to do with a client's request head (`proxy`),
  and the Shadowsocks server configuration (`tunnel`).
- `app/` is the program: clap, tokio sockets, hyper bodies and the relaying of
  bytes, which act on the library's decisions.
- `tests/` runs the library on concrete inputs.
