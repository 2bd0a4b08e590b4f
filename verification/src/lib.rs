//! The rules of a WebDAV server that records what happens to its files and
//! keeps them in step with its peers.
//!
//! - [`webdav`] and [`auth`] decide about requests and the events they stand
//!   for; [`db`] turns events into changes of the database, whose behaviour
//!   [`store`] describes, and [`transaction`] writes each as a whole or not at
//!   all.
//! - [`sync`] replicates files between peers: [`manifest`] and [`reconcile`]
//!   find out what differs, [`transfers`] queues what is to be pulled, and
//!   [`messages`] are what peers say to each other.
//! - [`p2p`] runs the conversation with the peers that [`discovery`] keeps
//!   account of, under an [`identity`].
//! - [`api`] answers the REST API; [`settings`] reads the environment.
//! - [`text`], [`numbers`], [`paths`], [`checksum`], [`sorting`] and [`peer`]
//!   hold what the others are built from.
//!
//! Reading and writing files, the network and the database itself are left to
//! the program around this library, which does what the functions here say.

pub mod api;
pub mod auth;
pub mod checksum;
pub mod db;
pub mod discovery;
pub mod identity;
pub mod manifest;
pub mod messages;
pub mod numbers;
pub mod p2p;
pub mod paths;
pub mod peer;
pub mod reconcile;
pub mod settings;
pub mod sorting;
pub mod store;
pub mod sync;
pub mod text;
pub mod transaction;
pub mod transfers;
pub mod webdav;
