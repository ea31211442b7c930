//! Wire encoding and decoding for netlink route and socket-diagnostic
//! messages: bounds-checked buffer views, the type-length-value attribute
//! codec, message composition and the decisions of a datagram framing layer.
pub mod collections;
pub mod error;
pub mod framed;
pub mod inet;
pub mod link;
pub mod link_nlas;
pub mod neighbour;
pub mod neighbour_table;
pub mod nla;
pub mod nsid;
pub mod parsers;
pub mod route;
pub mod rtnl;
pub mod sock_diag;
pub mod tc;
pub mod unix;
pub mod wire;
