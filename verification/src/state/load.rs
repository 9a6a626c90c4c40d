//! The structural checks a bytecode blob mruby could not read as a
//! program is reported by.
//!
//! A RITE binary opens with a header (`mruby/dump.h`): a four-byte
//! identifier, the format version in the next four bytes, then the
//! binary size and the compiler's name and version — twenty bytes in
//! all.

use vstd::prelude::*;

verus! {

/// The size of a RITE binary header.
pub const RITE_BINARY_HEADER_LEN: usize = 20;

/// The identifier a RITE binary opens with: `RITE`.
pub open spec fn rite_ident() -> Seq<u8> {
    seq![82u8, 73u8, 84u8, 69u8]
}

/// The format version the header carries: `0300`.
pub open spec fn rite_format_version() -> Seq<u8> {
    seq![48u8, 51u8, 48u8, 48u8]
}

/// Which structural check a blob mruby could not read as a program
/// failed, read from its header: too short to hold one, not opening
/// with the RITE identifier, carrying another format version, or — the
/// header being sound — the body.
pub fn structural_failure(bytes: &[u8]) -> (r: &'static str)
    ensures
        bytes@.len() < RITE_BINARY_HEADER_LEN ==> r@ == "bytecode shorter than RITE binary header"@,
        bytes@.len() >= RITE_BINARY_HEADER_LEN && bytes@.subrange(0, 4) != rite_ident() ==> r@
            == "bytecode header is not RITE format"@,
        bytes@.len() >= RITE_BINARY_HEADER_LEN && bytes@.subrange(0, 4) == rite_ident()
            && bytes@.subrange(4, 8) != rite_format_version() ==> r@
            == "bytecode RITE version mismatch"@,
        bytes@.len() >= RITE_BINARY_HEADER_LEN && bytes@.subrange(0, 4) == rite_ident()
            && bytes@.subrange(4, 8) == rite_format_version() ==> r@
            == "bytecode body failed structural validation"@,
{
    if bytes.len() < RITE_BINARY_HEADER_LEN {
        return "bytecode shorter than RITE binary header";
    }
    let ident_ok = bytes[0] == 82u8 && bytes[1] == 73u8 && bytes[2] == 84u8 && bytes[3] == 69u8;
    if !ident_ok {
        proof {
            assert(bytes@.subrange(0, 4) != rite_ident()) by {
                if bytes@.subrange(0, 4) == rite_ident() {
                    assert(bytes@.subrange(0, 4)[0] == bytes@[0]);
                    assert(bytes@.subrange(0, 4)[1] == bytes@[1]);
                    assert(bytes@.subrange(0, 4)[2] == bytes@[2]);
                    assert(bytes@.subrange(0, 4)[3] == bytes@[3]);
                }
            }
        }
        return "bytecode header is not RITE format";
    }
    assert(bytes@.subrange(0, 4) =~= rite_ident());
    let version_ok = bytes[4] == 48u8 && bytes[5] == 51u8 && bytes[6] == 48u8 && bytes[7] == 48u8;
    if !version_ok {
        proof {
            assert(bytes@.subrange(4, 8) != rite_format_version()) by {
                if bytes@.subrange(4, 8) == rite_format_version() {
                    assert(bytes@.subrange(4, 8)[0] == bytes@[4]);
                    assert(bytes@.subrange(4, 8)[1] == bytes@[5]);
                    assert(bytes@.subrange(4, 8)[2] == bytes@[6]);
                    assert(bytes@.subrange(4, 8)[3] == bytes@[7]);
                }
            }
        }
        return "bytecode RITE version mismatch";
    }
    assert(bytes@.subrange(4, 8) =~= rite_format_version());
    "bytecode body failed structural validation"
}

} // verus!
