//! The check of a certificate's algorithms: signed with ECDSA, with an
//! elliptic-curve public key. The caller reads the algorithm names off the
//! certificate.

use vstd::prelude::*;

use crate::common::text::{concat, push_str, str_contains, text_contains, text_occurs_at};

verus! {

/// The signature algorithm is one of the ECDSA ones named as supported.
pub open spec fn named_ecdsa(sig: Seq<char>) -> bool {
    ||| text_contains(sig, "ecdsa-with-SHA384"@)
    ||| text_contains(sig, "ecdsa-with-SHA256"@)
    ||| text_contains(sig, "ecdsa-with-SHA512"@)
}

/// The outcome of checking a certificate with signature algorithm `sig`
/// whose public key is (or is not) an EC key, of type `key_type`.
pub open spec fn algorithm_check(sig: Seq<char>, key_is_ec: bool, key_type: Seq<char>) -> Result<(), Seq<char>> {
    if !named_ecdsa(sig) && !text_contains(sig, "ecdsa"@) {
        Err("不支持的签名算法: "@ + sig + "，仅支持 ECDSA"@)
    } else if !key_is_ec {
        Err("不支持的公钥算法: "@ + key_type + "，仅支持 EC"@)
    } else {
        Ok(())
    }
}

/// Checks a certificate's algorithms: the signature algorithm must be ECDSA
/// (one of those named, or any whose name holds `ecdsa`), and the public key
/// an EC key.
pub fn validate_certificate_algorithm(signature_algorithm: &str, public_key_is_ec: bool, public_key_type: &str) -> (r: Result<(), String>)
    ensures
        match algorithm_check(signature_algorithm@, public_key_is_ec, public_key_type@) {
            Ok(()) => r is Ok,
            Err(m) => r matches Err(e) && e@ == m,
        },
{
    let supported = str_contains(signature_algorithm, "ecdsa-with-SHA384") || str_contains(
        signature_algorithm,
        "ecdsa-with-SHA256",
    ) || str_contains(signature_algorithm, "ecdsa-with-SHA512");
    if !supported && !str_contains(signature_algorithm, "ecdsa") {
        let mut s = concat("不支持的签名算法: ", signature_algorithm);
        push_str(&mut s, "，仅支持 ECDSA");
        return Err(s);
    }
    if !public_key_is_ec {
        let mut s = concat("不支持的公钥算法: ", public_key_type);
        push_str(&mut s, "，仅支持 EC");
        return Err(s);
    }
    Ok(())
}

/// Every named ECDSA algorithm holds `ecdsa`, so a signature algorithm is
/// accepted exactly when its name holds `ecdsa`.
pub proof fn lemma_ecdsa_in_name_decides(sig: Seq<char>)
    ensures
        (named_ecdsa(sig) || text_contains(sig, "ecdsa"@)) == text_contains(sig, "ecdsa"@),
{
    reveal_strlit("ecdsa");
    reveal_strlit("ecdsa-with-SHA384");
    reveal_strlit("ecdsa-with-SHA256");
    reveal_strlit("ecdsa-with-SHA512");
    if text_contains(sig, "ecdsa-with-SHA384"@) {
        let i = choose|i: int| text_occurs_at(sig, "ecdsa-with-SHA384"@, i);
        assert(text_occurs_at(sig, "ecdsa"@, i));
    }
    if text_contains(sig, "ecdsa-with-SHA256"@) {
        let i = choose|i: int| text_occurs_at(sig, "ecdsa-with-SHA256"@, i);
        assert(text_occurs_at(sig, "ecdsa"@, i));
    }
    if text_contains(sig, "ecdsa-with-SHA512"@) {
        let i = choose|i: int| text_occurs_at(sig, "ecdsa-with-SHA512"@, i);
        assert(text_occurs_at(sig, "ecdsa"@, i));
    }
}

} // verus!
