//! Core of a small database web gateway: a session registry that binds each
//! client session to one backend connection, an authentication gate that
//! routes requests by their session token, and a renderer that lays a query
//! result out as a fixed-width text table.

pub mod errors;
pub mod gate;
pub mod net;
pub mod registry;
pub mod table;
