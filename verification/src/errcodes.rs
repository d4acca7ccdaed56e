//! Normalization of raw transfer error strings into stable codes and the
//! structured error classification.

use vstd::prelude::*;
use vstd::string::{StrSliceExecFns, StringExecFns};

use crate::model::payout::TransferErrorKind;
use crate::strutil::{spec_starts_with, str_eq, str_starts_with};

verus! {

/// The normalized form of a raw error marker: the stable `ERR_*` codes for
/// the known markers, the `NFT_*` prefixes re-labelled, everything else
/// passed through.
pub open spec fn spec_map_error_code(code: Seq<char>) -> Seq<char> {
    if code == "missing_approval"@ {
        "ERR_MISSING_APPROVAL"@
    } else if code == "allowance_not_found_on_chain"@ {
        "ERR_ALLOWANCE_CHAIN_MISSING"@
    } else if code == "invalid_owner_principal"@ {
        "ERR_INVALID_OWNER_PRINCIPAL"@
    } else if code == "missing_destination_principal"@ {
        "ERR_MISSING_DESTINATION"@
    } else if spec_starts_with(code, "dip721_err:"@) {
        "NFT_DIP721:"@ + code.skip(11)
    } else if spec_starts_with(code, "ext_err:"@) {
        "NFT_EXT:"@ + code.skip(8)
    } else if spec_starts_with(code, "nft_standard_unsupported:"@) {
        "NFT_UNSUPPORTED:"@ + code.skip(25)
    } else {
        code
    }
}

/// Map a raw error marker to its stable code.
pub fn map_error_code(code: &str) -> (r: String)
    ensures
        r@ == spec_map_error_code(code@),
{
    if str_eq(code, "missing_approval") {
        return <String as StringExecFns>::from_str("ERR_MISSING_APPROVAL");
    }
    if str_eq(code, "allowance_not_found_on_chain") {
        return <String as StringExecFns>::from_str("ERR_ALLOWANCE_CHAIN_MISSING");
    }
    if str_eq(code, "invalid_owner_principal") {
        return <String as StringExecFns>::from_str("ERR_INVALID_OWNER_PRINCIPAL");
    }
    if str_eq(code, "missing_destination_principal") {
        return <String as StringExecFns>::from_str("ERR_MISSING_DESTINATION");
    }
    if str_starts_with(code, "dip721_err:") {
        proof {
            reveal_strlit("dip721_err:");
        }
        let mut out = <String as StringExecFns>::from_str("NFT_DIP721:");
        let tail = code.substring_char(11, code.unicode_len());
        StringExecFns::append(&mut out, tail);
        proof {
            assert(code@.subrange(11, code@.len() as int) =~= code@.skip(11));
        }
        return out;
    }
    if str_starts_with(code, "ext_err:") {
        proof {
            reveal_strlit("ext_err:");
        }
        let mut out = <String as StringExecFns>::from_str("NFT_EXT:");
        let tail = code.substring_char(8, code.unicode_len());
        StringExecFns::append(&mut out, tail);
        proof {
            assert(code@.subrange(8, code@.len() as int) =~= code@.skip(8));
        }
        return out;
    }
    if str_starts_with(code, "nft_standard_unsupported:") {
        proof {
            reveal_strlit("nft_standard_unsupported:");
        }
        let mut out = <String as StringExecFns>::from_str("NFT_UNSUPPORTED:");
        let tail = code.substring_char(25, code.unicode_len());
        StringExecFns::append(&mut out, tail);
        proof {
            assert(code@.subrange(25, code@.len() as int) =~= code@.skip(25));
        }
        return out;
    }
    <String as StringExecFns>::from_str(code).clone()
}

/// The structured classification a stable code maps to.
pub open spec fn spec_from_legacy(code: Seq<char>) -> TransferErrorKind {
    if code == "ERR_MISSING_APPROVAL"@ {
        TransferErrorKind::MissingApproval
    } else if code == "ERR_ALLOWANCE_CHAIN_MISSING"@ {
        TransferErrorKind::AllowanceNotFoundOnChain
    } else if code == "ERR_INVALID_OWNER_PRINCIPAL"@ {
        TransferErrorKind::InvalidOwnerPrincipal
    } else if code == "ERR_MISSING_DESTINATION"@ {
        TransferErrorKind::MissingDestinationPrincipal
    } else if spec_starts_with(code, "NFT_DIP721:"@) {
        TransferErrorKind::NftDip721
    } else if spec_starts_with(code, "NFT_EXT:"@) {
        TransferErrorKind::NftExt
    } else if spec_starts_with(code, "NFT_UNSUPPORTED:"@) {
        TransferErrorKind::NftUnsupported
    } else if spec_starts_with(code, "call failed"@) || spec_starts_with(code, "decode err"@) {
        TransferErrorKind::TransferCallFailed
    } else {
        TransferErrorKind::Other
    }
}

/// Classify a stable code into the structured transfer error taxonomy.
pub fn transfer_error_kind_from_legacy(code: &str) -> (r: TransferErrorKind)
    ensures
        r == spec_from_legacy(code@),
{
    if str_eq(code, "ERR_MISSING_APPROVAL") {
        TransferErrorKind::MissingApproval
    } else if str_eq(code, "ERR_ALLOWANCE_CHAIN_MISSING") {
        TransferErrorKind::AllowanceNotFoundOnChain
    } else if str_eq(code, "ERR_INVALID_OWNER_PRINCIPAL") {
        TransferErrorKind::InvalidOwnerPrincipal
    } else if str_eq(code, "ERR_MISSING_DESTINATION") {
        TransferErrorKind::MissingDestinationPrincipal
    } else if str_starts_with(code, "NFT_DIP721:") {
        TransferErrorKind::NftDip721
    } else if str_starts_with(code, "NFT_EXT:") {
        TransferErrorKind::NftExt
    } else if str_starts_with(code, "NFT_UNSUPPORTED:") {
        TransferErrorKind::NftUnsupported
    } else if str_starts_with(code, "call failed") || str_starts_with(code, "decode err") {
        TransferErrorKind::TransferCallFailed
    } else {
        TransferErrorKind::Other
    }
}

} // verus!
