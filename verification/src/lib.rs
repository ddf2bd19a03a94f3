//! Flow fingerprinting and aggregation for captured link-layer frames.
//!
//! A frame's bytes are classified by ethertype ([`ether`]), its
//! network-layer and transport-layer headers are read into a
//! [`flow::FiveTuple`] ([`parse`]), and the tuples are counted in an
//! [`aggregate::FlowAggregator`], whose counters are reported in ascending
//! order of count ([`report`]). [`capture`] puts the steps together for one
//! frame; [`text`] and [`endian`] hold the notations and the byte order
//! that the others share.
//!
//! Every function is total on the bytes it is given: a read that would fall
//! outside the buffer is skipped, and the fields it would have filled keep
//! the values they had.

pub mod aggregate;
pub mod capture;
pub mod endian;
pub mod ether;
pub mod flow;
pub mod parse;
pub mod report;
pub mod text;
