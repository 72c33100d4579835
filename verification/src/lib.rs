//! A gateway for amateur-radio contact records: it takes records in the ADIF
//! tag format from UDP datagrams, checks them, and forwards each valid one to
//! a Wavelog service over HTTP.
//!
//! This library holds the codec and every decision of the gateway, with
//! their contracts. Sockets, HTTP and the window are the caller's: the
//! library tells it what to do next and is told what happened.

pub mod adif;
pub mod codec_proofs;
pub mod fields;
pub mod gateway;
pub mod qso;
pub mod roundtrip;
pub mod settings;
pub mod stream_proofs;
pub mod text;
pub mod udp;
pub mod wavelog;
