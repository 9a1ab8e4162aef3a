//! A tunnel server: clients behind a NAT register subdomains and ports, and the public reaches
//! them through the server's edges.
//!
//! The routing core ([`router`], [`router_ops`]) knows who serves what; [`router_model`] says
//! what it knows and how each operation changes that, [`router_laws`] what stays true from one
//! operation to the next, and [`router_history`] what holds over all of them. The control plane
//! ([`session`], [`frames`], [`session_loop`]), the edges ([`http`], [`proxy`], [`exchange`],
//! [`udp`]) and the dashboard ([`scope`], [`summary`], [`api`], [`admin`], [`db`]) decide on plain
//! values; what is read from a socket, a clock or a database comes in as an argument.
#![allow(unused_imports)]

pub mod address;
pub mod admin;
pub mod api;
pub mod auth;
pub mod clock;
pub mod control_laws;
pub mod dashboard_laws;
pub mod db;
pub mod digest;
pub mod edge_laws;
pub mod error;
pub mod exchange;
pub mod frames;
pub mod group;
pub mod guard_laws;
pub mod headers;
pub mod health_laws;
pub mod http;
pub mod ids;
pub mod loop_laws;
pub mod peer;
pub mod protocol;
pub mod proxy;
pub mod punch_laws;
pub mod registration_laws;
pub mod route_laws;
pub mod router;
pub mod router_history;
pub mod router_laws;
pub mod router_model;
pub mod router_ops;
pub mod scope;
pub mod session;
pub mod session_info;
pub mod session_loop;
pub mod summary;
pub mod table;
pub mod text;
pub mod traffic_laws;
pub mod tunnel;
pub mod udp;
