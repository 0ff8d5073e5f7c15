use vstd::prelude::*;

verus! {

/// Security parameter of the scheme: the bit length of the random strings
/// that every party contributes to the session nonce, and one eighth of the
/// minimal accepted Paillier modulus bit length.
pub const SECURITY_PARAMETER: usize = 256;

/// Byte length of a `BitVec` holding `SECURITY_PARAMETER` bits.
pub const BITVEC_BYTES: usize = (SECURITY_PARAMETER - 1) / 8 + 1;

/// Byte length of an accepted Paillier modulus: `8 * SECURITY_PARAMETER` bits.
pub const MODULUS_BYTES: usize = SECURITY_PARAMETER;

/// Byte length of a value in the multiplicative group modulo the square of a
/// Paillier modulus.
pub const DOUBLE_BYTES: usize = 2 * MODULUS_BYTES;

} // verus!
