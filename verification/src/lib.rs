//! Dictionary-based recovery of plaintext passwords from stored credential
//! hashes: a registry of hash-function kinds, a hasher that digests every
//! candidate of a wordlist, and a retriever that correlates the digests with
//! stored (login, digest) credentials.

pub mod cli;
pub mod errors;
pub mod hasher;
pub mod passwords;
pub mod retriever;
pub mod text;
