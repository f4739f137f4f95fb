//! Checking the identity chain of a login. Parsing the JSON and verifying the
//! token signatures is done by the caller; what is decided from the results
//! is decided here.

use vstd::prelude::*;
use vstd::string::StringSliceAdditionalSpecFns;
use crate::protocol::login::error::LoginError;

verus! {

/// The header of an identity token: the key it was signed with (base64 DER)
/// and the algorithm.
#[derive(Debug)]
pub struct JWTHeader {
    pub x5u: String,
    pub alg: String,
}

/// The identity chain a login carries: its tokens, in order.
#[derive(Debug)]
pub struct AuthChain {
    pub chain: Vec<String>,
}

/// The player's data, from the token that carries it.
#[allow(non_snake_case)]
#[derive(Debug)]
pub struct ExtraUserdata {
    pub XUID: String,
    pub identity: String,
    pub displayName: String,
    pub titleId: String,
}

/// The claims of an identity token.
#[allow(non_snake_case)]
#[derive(Debug)]
pub struct AdditionalData {
    pub extraData: Option<ExtraUserdata>,
    pub certificateAuthority: Option<bool>,
    pub randomNonce: Option<isize>,
    pub identityPublicKey: String,
}

/// What an accepted identity chain gives: the player's key and data.
#[derive(Debug)]
pub struct VerifiedData {
    pub key: String,
    pub user_data: ExtraUserdata,
}

/// The number of tokens an identity chain must hold.
pub const CHAIN_LENGTH: usize = 3;

/// An identity chain holds exactly three tokens; any other count is refused
/// with that count.
pub fn check_chain_length(chains: &Vec<String>) -> (r: Result<(), LoginError>)
    ensures
        chains@.len() == 3 ==> r is Ok,
        chains@.len() != 3 ==> r == Err::<(), LoginError>(LoginError::InvalidChainLength(chains@.len() as usize)),
{
    if chains.len() != CHAIN_LENGTH {
        return Err(LoginError::InvalidChainLength(chains.len()));
    }
    Ok(())
}

/// Whether a token's header names `trusted_key`.
pub fn names_trusted_key(x5u: &String, trusted_key: &String) -> (r: bool)
    ensures
        r == (x5u@ == trusted_key@),
{
    *x5u == *trusted_key
}

/// Whether some token of the chain names `trusted_key` in its header.
pub open spec fn signed_by(headers: Seq<String>, trusted_key: Seq<char>) -> bool {
    exists|i: int| 0 <= i < headers.len() && #[trigger] headers[i]@ == trusted_key
}

/// The last token whose claims carry the player's data, if any.
pub open spec fn last_with_data(claims: Seq<AdditionalData>) -> Option<int>
    decreases claims.len(),
{
    if claims.len() == 0 {
        None
    } else if claims.last().extraData is Some {
        Some(claims.len() - 1)
    } else {
        last_with_data(claims.drop_last())
    }
}

/// Which token's data is taken: `Some(i)` exactly when the claims of token
/// `i` carry the player's data and no later token's do; `None` exactly when
/// no token's do.
pub proof fn lemma_last_with_data(claims: Seq<AdditionalData>)
    ensures
        last_with_data(claims) is None <==> forall|j: int|
            0 <= j < claims.len() ==> (#[trigger] claims[j]).extraData is None,
        forall|i: int|
            last_with_data(claims) == Some(i) <==> {
                &&& 0 <= i < claims.len()
                &&& claims[i].extraData is Some
                &&& forall|j: int| i < j < claims.len() ==> (#[trigger] claims[j]).extraData is None
            },
    decreases claims.len(),
{
    if claims.len() > 0 {
        let d = claims.drop_last();
        lemma_last_with_data(d);
        assert forall|j: int| 0 <= j < d.len() implies d[j] == claims[j] by {}
        if claims.last().extraData is None {
            assert forall|i: int|
                last_with_data(claims) == Some(i) <==> {
                    &&& 0 <= i < claims.len()
                    &&& claims[i].extraData is Some
                    &&& forall|j: int|
                        i < j < claims.len() ==> (#[trigger] claims[j]).extraData is None
                } by {
                if 0 <= i < claims.len() && claims[i].extraData is Some && (forall|j: int|
                    i < j < claims.len() ==> (#[trigger] claims[j]).extraData is None) {
                    assert(i < d.len());
                    assert(forall|j: int| i < j < d.len() ==> (#[trigger] d[j]).extraData is None);
                }
                if last_with_data(claims) == Some(i) {
                    assert forall|j: int| i < j < claims.len() implies (
                    #[trigger] claims[j]).extraData is None by {
                        if j < d.len() {
                            assert(d[j] == claims[j]);
                        }
                    }
                }
            }
            if last_with_data(claims) is None {
                assert forall|j: int| 0 <= j < claims.len() implies (
                #[trigger] claims[j]).extraData is None by {
                    if j < d.len() {
                        assert(d[j] == claims[j]);
                    }
                }
            }
        } else {
            assert(claims[claims.len() - 1].extraData is Some);
        }
    }
}

/// Concludes the check of a chain whose every token verified: `headers` are
/// the keys named in the tokens' headers and `claims` their claims, in chain
/// order. Refused as `NotAuthenticated` unless some header names
/// `trusted_key`; then as `WrongClaim` unless some token carries the player's
/// data; else the data and key of the last token that does.
pub fn conclude_auth(headers: &Vec<String>, claims: Vec<AdditionalData>, trusted_key: &String) -> (r:
    Result<VerifiedData, LoginError>)
    ensures
        !signed_by(headers@, trusted_key@) ==> r == Err::<VerifiedData, LoginError>(
            LoginError::NotAuthenticated,
        ),
        signed_by(headers@, trusted_key@) && last_with_data(claims@) is None ==> r == Err::<
            VerifiedData,
            LoginError,
        >(LoginError::WrongClaim),
        signed_by(headers@, trusted_key@) && last_with_data(claims@) is Some ==> (r matches Ok(v)
            && Some(v.user_data) == claims@[last_with_data(claims@).unwrap()].extraData && v.key
            == claims@[last_with_data(claims@).unwrap()].identityPublicKey),
        signed_by(headers@, trusted_key@) && (forall|j: int|
            0 <= j < claims@.len() ==> (#[trigger] claims@[j]).extraData is None) ==> r == Err::<
            VerifiedData,
            LoginError,
        >(LoginError::WrongClaim),
        signed_by(headers@, trusted_key@) && (exists|j: int|
            0 <= j < claims@.len() && (#[trigger] claims@[j]).extraData is Some) ==> r is Ok,
        r is Ok ==> exists|i: int|
            0 <= i < claims@.len() && (#[trigger] claims@[i]).extraData == Some(r->Ok_0.user_data)
                && r->Ok_0.key == claims@[i].identityPublicKey && forall|j: int|
                i < j < claims@.len() ==> (#[trigger] claims@[j]).extraData is None,
{
    proof {
        lemma_last_with_data(claims@);
    }
    let mut verified: bool = false;
    let mut i: usize = 0;
    while i < headers.len()
        invariant
            i <= headers@.len(),
            verified <==> exists|j: int| 0 <= j < i && #[trigger] headers@[j]@ == trusted_key@,
        decreases headers@.len() - i,
    {
        if names_trusted_key(&headers[i], trusted_key) {
            verified = true;
        }
        i = i + 1;
    }
    if verified == false {
        return Err(LoginError::NotAuthenticated);
    }
    let ghost all = claims@;
    let mut rest = claims;
    proof {
        assert(rest@ =~= all.subrange(0, all.len() as int));
    }
    while rest.len() > 0
        invariant
            rest@ == all.subrange(0, rest@.len() as int),
            rest@.len() <= all.len(),
            all == claims@,
            signed_by(headers@, trusted_key@),
            last_with_data(all) == last_with_data(rest@),
        decreases rest@.len(),
    {
        let ghost before = rest@;
        let claim = rest.pop().unwrap();
        proof {
            assert(claim == before.last());
            assert(rest@ =~= before.drop_last());
            assert(rest@ =~= all.subrange(0, rest@.len() as int));
        }
        match claim.extraData {
            Some(data) => {
                proof {
                    lemma_last_with_data(all);
                    let i = rest@.len() as int;
                    assert(last_with_data(all) == Some(i));
                    assert(all[i].extraData == Some(data));
                }
                return Ok(VerifiedData { key: claim.identityPublicKey, user_data: data });
            },
            None => {},
        }
    }
    proof {
        assert(rest@ =~= Seq::<AdditionalData>::empty());
    }
    Err(LoginError::WrongClaim)
}

/// What standard base64 decoding (the `+/` alphabet, with padding) makes of
/// `input`: `None` where `input` is not base64.
pub uninterp spec fn base64_standard_decoded(input: Seq<u8>) -> Option<Seq<u8>>;

/// `base64::decode` (the standard configuration), its error dropped. The
/// decoding is named, not stated.
#[verifier::external_body]
fn base64_decode(input: &[u8]) -> (r: Option<Vec<u8>>)
    ensures
        r is Some <==> base64_standard_decoded(input@) is Some,
        r matches Some(v) ==> v@ == base64_standard_decoded(input@).unwrap(),
{
    base64::decode(input).ok()
}

/// The bytes of a token up to its first `.`: its first segment.
pub open spec fn jwt_first_segment(b: Seq<u8>) -> Seq<u8>
    decreases b.len(),
{
    if b.len() == 0 {
        b
    } else if b[0] == 0x2e {
        Seq::empty()
    } else {
        seq![b[0]] + jwt_first_segment(b.drop_first())
    }
}

proof fn lemma_first_segment(b: Seq<u8>, i: int)
    requires
        0 <= i <= b.len(),
        forall|j: int| 0 <= j < i ==> #[trigger] b[j] != 0x2e,
        i == b.len() || b[i] == 0x2e,
    ensures
        jwt_first_segment(b) == b.subrange(0, i),
    decreases i,
{
    if i == 0 {
        assert(b.subrange(0, 0) =~= Seq::<u8>::empty());
    } else {
        let t = b.drop_first();
        assert forall|j: int| 0 <= j < i - 1 implies #[trigger] t[j] != 0x2e by {
            assert(t[j] == b[j + 1]);
        }
        lemma_first_segment(t, i - 1);
        assert(seq![b[0]] + t.subrange(0, i - 1) =~= b.subrange(0, i));
    }
}

/// The header of a token, base64-decoded: the token's first segment (up to
/// the first `.`). `None` where that segment is not base64.
pub fn jwt_header_bytes(token: &str) -> (r: Option<Vec<u8>>)
    ensures
        r is Some <==> base64_standard_decoded(jwt_first_segment(token.spec_bytes())) is Some,
        r matches Some(v) ==> v@ == base64_standard_decoded(
            jwt_first_segment(token.spec_bytes()),
        ).unwrap(),
{
    let bytes = token.as_bytes();
    let mut i: usize = 0;
    while i < bytes.len() && bytes[i] != 0x2e
        invariant
            i <= bytes@.len(),
            forall|j: int| 0 <= j < i ==> #[trigger] bytes@[j] != 0x2e,
        decreases bytes@.len() - i,
    {
        i = i + 1;
    }
    proof {
        lemma_first_segment(bytes@, i as int);
    }
    base64_decode(vstd::slice::slice_subrange(bytes, 0, i))
}

/// The key a header names, base64-decoded to DER. `None` where it is not
/// base64.
pub fn public_key_der(x5u: &str) -> (r: Option<Vec<u8>>)
    ensures
        r is Some <==> base64_standard_decoded(x5u.spec_bytes()) is Some,
        r matches Some(v) ==> v@ == base64_standard_decoded(x5u.spec_bytes()).unwrap(),
{
    base64_decode(x5u.as_bytes())
}

} // verus!
