//! Byte-level TBS (to-be-signed) templates for X.509 certificate signing
//! requests: a fully encoded request with a small set of dynamic fields
//! (public key, subject serial number, unique device identifier) located,
//! zeroed out, and reported as exact byte ranges, so a constrained runtime
//! can patch values directly into the buffer instead of re-running an
//! ASN.1 encoder.

pub mod backend;
pub mod csr;
pub mod envelope;
pub mod hexenc;
pub mod resolver;
pub mod tbs;
