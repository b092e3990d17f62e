//! Guard of a cross-chain header relay: decides, for each pending header
//! submission, whether to vote it valid or invalid against an independently
//! rebuilt parcel.
pub mod decision;
pub mod error;
pub mod parcel;
pub mod service;
