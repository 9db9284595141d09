//! A small collection of verified systems primitives and utilities.
//!
//! The centrepiece is an in-process multi-producer, single-consumer
//! channel with blocking receive and automatic close detection
//! ([`channel`]), whose laws are stated and proved over a transition
//! model ([`protocol`]).  Around it stand a few self-contained verified
//! pieces: in-place sorting ([`sorting`]), string utilities ([`text`] and
//! [`strtok`]), run grouping ([`grouping`]), contact-table row parsing
//! ([`contacts`]), and simple ownership containers ([`cell`], [`rc`],
//! [`boks`], [`locking`]).

pub mod boks;
pub mod cell;
pub mod channel;
pub mod contacts;
pub mod grouping;
pub mod locking;
pub mod protocol;
pub mod rc;
pub mod sorting;
pub mod strtok;
pub mod text;

pub use channel::{Receiver, Sender, _channel, same_channel};
