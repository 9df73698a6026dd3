//! Verified models of the ASN.1 primitive value types: timestamps, strings,
//! integers, object identifiers, octet strings and bit strings.
//!
//! Each primitive comes as a pair of types: an owning value and a non-owning
//! view bound to the owner's lifetime. Read and derive operations live on the
//! view type; fallible operations return a structured error that carries a
//! snapshot of the error codes raised at the point of failure.

pub mod bit_string;
pub mod error;
pub mod integer;
pub mod object;
pub mod octet_string;
pub mod render;
pub mod strings;
pub mod time;
