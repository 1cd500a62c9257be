//! AtomCrypte: an experimental authenticated symmetric cipher.
//!
//! A payload is turned into a self-describing blob under a password, a
//! 32-byte nonce, an optional 32-byte salt and a [`Config`]. The payload goes
//! through a keyed substitution box, a byte mixing pass, a column mixer over
//! GF(2^8), a chunked rotate-and-mask stage and a number of keyed XOR rounds;
//! a SHA3-512 MAC binds the result.
//!
//! Every stage is stated as a function on byte sequences and the code is
//! proved against it. [`theorems`] holds what follows for the cipher as a whole:
//! decryption undoes encryption, the layout of a blob, and that the device and
//! the worker count leave no trace in a blob. The calls into other crates
//! (hashes, Argon2, the worker pool, randomness, constant-time comparison,
//! zeroing) stand in [`digest`], [`parallel`], [`entropy`] and [`secrets`];
//! what is assumed of each is written above it.

pub mod builder;
pub mod byteops;
pub mod cipher;
pub mod columns;
pub mod config;
pub mod digest;
pub mod entropy;
pub mod errors;
pub mod frame;
pub mod galois;
pub mod kdf;
pub mod theorems;
pub mod mix;
pub mod nonce;
pub mod parallel;
pub mod rounds;
pub mod salt;
pub mod sbox;
pub mod secrets;
pub mod shift;
pub mod xor;

pub use builder::AtomCrypteBuilder;
pub use cipher::decrypt;
pub use cipher::encrypt;
pub use config::Config;
pub use config::DeviceList;
pub use config::IrreduciblePoly;
pub use config::Profile;
pub use config::SboxTypes;
pub use errors::Errors;
pub use errors::Rejection;
pub use nonce::AsNonce;
pub use nonce::MachineRng;
pub use nonce::Nonce;
pub use nonce::NonceData;
pub use nonce::Rng;
pub use salt::generate_salt;
pub use salt::AsSalt;
pub use salt::Salt;
