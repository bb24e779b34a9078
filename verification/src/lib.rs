//! Routing and middleware dispatch for an HTTP application framework.
//!
//! A [`router::Router`] is a tree of path segments holding middleware and
//! method handlers.  It is flattened into a [`table::RouteTable`] of
//! handler chains, the paths of the table are indexed by a trie in a
//! [`dispatch::Dispatcher`], and each request is resolved to one chain,
//! which a [`ctx::Ctx`] then walks with an explicit cursor.
//!
//! Nothing here reads a socket or runs a handler.  A handler is known by
//! a number; the host keeps the callables, runs what the context hands out
//! and reports back by calling `next`.  The settings and decisions of the
//! middleware that comes with the framework are in [`middlewares`].

pub mod any_map;
pub mod bridge;
pub mod config;
pub mod ctx;
pub mod dispatch;
pub mod handler;
pub mod into_response;
pub mod locals;
pub mod method;
pub mod middlewares;
pub mod path;
pub mod request;
pub mod response;
pub mod router;
pub mod static_files;
pub mod status_error;
pub mod table;
pub mod text;
pub mod trie;
