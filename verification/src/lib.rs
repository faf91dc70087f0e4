//! Control of Amaran and Aputure lights over a Bluetooth mesh proxy.
//!
//! The crate holds everything about the lights that is computation or decision, and none of the
//! input and output around it.
//!
//! - [`telink`]: the payloads that the fixtures understand
//! - [`crypto`], [`keys`]: the mesh security functions, and the keys in their textual form
//! - [`pdu`]: the messages of a mesh proxy
//! - [`controller`]: a session, and what it writes when
//! - [`scan`]: which device is connected to
//! - [`daemon`], [`http`], [`mqtt`], [`cli`]: requests, from wherever they come, and replies
//! - [`setup`]: the dialogue that leads to a configuration
//! - [`config`], [`json`], [`text`], [`octets`]: what the others are built on

pub mod cli;
pub mod config;
pub mod controller;
pub mod crypto;
pub mod daemon;
pub mod http;
pub mod json;
pub mod keys;
pub mod mqtt;
pub mod octets;
pub mod pdu;
pub mod scan;
pub mod setup;
pub mod telink;
pub mod text;
