# rustunnel server

The logic of a tunnel server, written and proved in Verus: who may connect, which tunnels there
are and who serves them, what becomes of a request that comes in at the edge, and what the
dashboard shows to whom.

## Layout

* `src/` is the library. Every function states in its contract what it returns and changes, and
  Verus proves it.
  * `router`, `router_model`, `router_ops`, `router_laws`, `router_history`: the routing core,
    what it is mathematically, what is done to it, and the laws that hold of it throughout, from
    one operation to the next and over whole histories.
  * `tunnel`, `group`, `session_info`, `protocol`, `peer`, `error`: what the core is made of, and
    what clients and server say to each other.
  * `session`, `frames`, `session_loop`: a client's session, from its first frame to its end.
  * `http`, `headers`, `proxy`, `exchange`, `udp`: the edges.
  * `scope`, `summary`, `api`, `admin`, `db`: the dashboard and the queries behind it.
  * `auth`, `address`, `digest`, `ids`, `clock`, `table`, `text`: what the rest stands on.
* `tests/` runs the library on concrete values.
* `app/` is the server around it: sockets, WebSockets, streams, databases, HTTP.

## What is trusted

A few functions call other crates, and Verus believes what their contracts say of them. Each of
them says in its doc comment which function it calls and what is claimed of it: maps of
`dashmap`, header maps of `http`, identifiers of `uuid`, digests of `sha2` and `hex`, the
comparison of `subtle`, the choice of `rand`, dates of `chrono`, and the clocks of `std`.

Names without a body in `src/` (`uninterp spec fn`) stand for what such a function returns or
what such a collection holds.
