//! Fixed-width byte arrays and big integers with a canonical hexadecimal text form.
//!
//! Every value has one width, known at compile time, and is stored most
//! significant byte first. The modules give the byte arrays and the
//! conversions between their widths, the text codec, the big integers, and the
//! parsing of integers from decimal and hexadecimal text.

pub mod hash;
pub mod hex;
pub mod order;
pub mod uint;
pub mod radix;

pub use hash::{FixedHash, H1024, H128, H160, H256, H264, H32, H512, H520, H64};
pub use hex::{ExpectedLen, HexError};
pub use radix::{FromHexError, FromStrRadixErr, FromStrRadixErrKind, FromStrRadixErrSrc};
pub use uint::{FromDecStrErr, Uint, U128, U256, U512};
