# tonic_template

A route-guide and greeter gRPC service whose rules are verified with Verus.

- `src/` is the verified library: the messages of both services
  (`hello_world`, `route_guide`), the server's answers (`server`: greeting,
  feature lookup and listing, route summaries, the authorization check, the
  health flip), the route chat (`route_chat`), laws over several recorded
  routes (`route_laws`), and what the client sends
  (`client`: random points and routes, chat notes).
- `app/` is the program around it: the gRPC plumbing with tonic, the wire
  forms of the messages, the haversine distance (floating point), and the
  `server` and `client` entry points (`app client` runs the client).
- `tests/` runs the library on concrete values.
