//! Random credentials for provisioning a client: a token of uppercase
//! letters and a password sampled from a pool of candidate characters.
//!
//! Every generator has two layers. The inner layer is a total function from
//! the drawn numbers to the credential, so that its result is fixed by its
//! arguments. The outer layer draws the numbers and hands them to the inner
//! layer; its contract states what holds of every possible draw.

pub mod password;
pub mod pool;
pub mod random;
pub mod run;
pub mod text;
pub mod token;
