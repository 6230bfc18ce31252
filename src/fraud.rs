//! The fraud check: an email syntax check, then a scoring model over the bytes
//! of the claim's identity fields. The model itself is supplied by the caller,
//! which keeps its randomness source explicit.
use vstd::prelude::*;
use crate::email::{email_is_valid, email_well_formed};
use crate::store::ReserveError;
use vstd::string::StringSliceAdditionalSpecFns;

verus! {

/// The feature bytes of a claim: the bytes of the name, then of the email,
/// then of the card.
pub open spec fn feature_bytes(name: Seq<u8>, email: Seq<u8>, card: Seq<u8>) -> Seq<u8> {
    name + email + card
}

/// What the fraud check may answer for a claim, given the model it consults: a
/// malformed email is rejected without scoring; otherwise the answer is one
/// the model may give on the claim's feature bytes.
pub open spec fn gate_outcome<F: FnOnce(Vec<u8>) -> bool>(
    model: F,
    email: &str,
    name: &str,
    card: &str,
    accepted: bool,
) -> bool {
    if !email_well_formed(email@) {
        !accepted
    } else {
        exists|f: Vec<u8>|
            f@ == feature_bytes(name.spec_bytes(), email.spec_bytes(), card.spec_bytes())
                && #[trigger] model.ensures((f,), accepted)
    }
}

fn push_bytes(out: &mut Vec<u8>, s: &str)
    ensures
        final(out)@ == old(out)@ + s.spec_bytes(),
{
    let b = s.as_bytes();
    let mut i: usize = 0;
    while i < b.len()
        invariant
            i <= b@.len(),
            b@ == s.spec_bytes(),
            out@ == old(out)@ + b@.subrange(0, i as int),
        decreases b@.len() - i,
    {
        out.push(b[i]);
        i = i + 1;
        assert(out@ =~= old(out)@ + b@.subrange(0, i as int));
    }
    assert(b@.subrange(0, i as int) =~= b@);
}

/// The feature bytes of a claim, as `feature_bytes` describes them.
pub fn concat_features(name: &str, email: &str, card: &str) -> (r: Vec<u8>)
    ensures
        r@ == feature_bytes(name.spec_bytes(), email.spec_bytes(), card.spec_bytes()),
{
    let mut r: Vec<u8> = Vec::new();
    push_bytes(&mut r, name);
    push_bytes(&mut r, email);
    push_bytes(&mut r, card);
    assert(r@ =~= feature_bytes(name.spec_bytes(), email.spec_bytes(), card.spec_bytes()));
    r
}

/// Screens a claim: `InvalidEmail` on a malformed email (the model is not
/// consulted), else `FraudRejected` when the model declines the feature bytes.
pub fn screen<F: FnOnce(Vec<u8>) -> bool>(email: &str, name: &str, card: &str, model: F) -> (r:
    Result<(), ReserveError>)
    requires
        forall|f: Vec<u8>| #[trigger] model.requires((f,)),
    ensures
        !email_well_formed(email@) <==> r == Err::<(), ReserveError>(ReserveError::InvalidEmail),
        r is Ok || r == Err::<(), ReserveError>(ReserveError::InvalidEmail) || r == Err::<
            (),
            ReserveError,
        >(ReserveError::FraudRejected),
        gate_outcome(model, email, name, card, r is Ok),
{
    if !email_is_valid(email) {
        return Err(ReserveError::InvalidEmail);
    }
    let features = concat_features(name, email, card);
    let ghost fv = features;
    let accepted = model(features);
    assert(model.ensures((fv,), accepted));
    if accepted {
        Ok(())
    } else {
        Err(ReserveError::FraudRejected)
    }
}

/// The fraud check: `true` admits the claim. A malformed email is rejected
/// whatever the model would say; a well-formed one is admitted exactly when
/// the model accepts the claim's feature bytes.
pub fn anti_fraud<F: FnOnce(Vec<u8>) -> bool>(
    _ticket_id: u32,
    res_email: &str,
    res_name: &str,
    res_card: &str,
    model: F,
) -> (r: bool)
    requires
        forall|f: Vec<u8>| #[trigger] model.requires((f,)),
    ensures
        gate_outcome(model, res_email, res_name, res_card, r),
        !email_well_formed(res_email@) ==> !r,
{
    screen(res_email, res_name, res_card, model).is_ok()
}

/// A model that gives one answer for one input makes the fraud check give one answer
/// for one claim: with a fixed seed, the same claim gets the same verdict.
pub proof fn lemma_gate_deterministic<F: FnOnce(Vec<u8>) -> bool>(
    model: F,
    email: &str,
    name: &str,
    card: &str,
    r1: bool,
    r2: bool,
)
    requires
        forall|f: Vec<u8>, g: Vec<u8>, a: bool, b: bool|
            f@ == g@ && #[trigger] model.ensures((f,), a) && #[trigger] model.ensures((g,), b)
                ==> a == b,
        gate_outcome(model, email, name, card, r1),
        gate_outcome(model, email, name, card, r2),
    ensures
        r1 == r2,
{
}

/// A malformed email (no `@`, no dot after the `@`, or an empty local part) is
/// rejected by the fraud check, whatever the name, the card and the model.
pub proof fn lemma_malformed_email_rejected<F: FnOnce(Vec<u8>) -> bool>(
    model: F,
    email: &str,
    name: &str,
    card: &str,
    accepted: bool,
)
    requires
        (forall|i: int| 0 <= i < email@.len() ==> email@[i] != '@') || (email@.len() > 0
            && email@[0] == '@') || (forall|i: int, j: int|
            0 <= i < j < email@.len() && email@[i] == '@' ==> email@[j] != '.'),
        gate_outcome(model, email, name, card, accepted),
    ensures
        !accepted,
{
    if email@.len() > 0 && email@[0] == '@' {
        crate::email::lemma_empty_local_malformed(email@);
    }
}

} // verus!
