//! Records the providers keep about the accounts they authenticate.

pub mod sam;
