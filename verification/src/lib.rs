//! A scalar computation graph: every node holds a number that is either a
//! literal or the recorded result of an arithmetic operation on earlier
//! nodes, together with the operands, the operation and a label that say
//! how the number was derived.
//!
//! Nodes live in an [`engine::Graph`]; an [`engine::Value`] is a cheap handle
//! that names one node of it. Copies of a handle name the same node, so a
//! label set through one copy is seen through every other. A graph only
//! grows, and a node's operands always stand before it, so no node is ever
//! among its own operands.
//!
//! Every function states its result over the model of [`model`]: the
//! sequence of the nodes in the order of their creation.

pub mod op;
pub mod model;
pub mod engine;
pub mod numeric;
pub mod label;
pub mod ops;
pub mod describe;
pub mod equality;
pub mod order;
pub mod reach;
