//! A route-guide and greeter service core: the message types of the two
//! gRPC services, the rules by which the server answers each call, and the
//! values the demonstration client sends.

pub mod client;
pub mod hello_world;
pub mod route_chat;
pub mod route_guide;
pub mod route_laws;
pub mod server;
