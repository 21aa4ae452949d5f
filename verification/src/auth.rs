//! The authentication middleware: resolve a presented credential to the
//! account and scope it was issued for.
//!
//! The whole decision is the pure function [`auth_decision`]: cut the
//! header value at its first `.`, walk the key table in order, skip rows
//! whose stored prefix differs, and verify the full value against each
//! candidate's hash until one matches. The executable middleware is proved
//! to return exactly that decision.

use vstd::prelude::*;
use vstd::string::StringExecFns;
use crate::errors::AppError;
use crate::errors::ErrorKind;
use crate::hashing::bcrypt_verify_of;
use crate::hashing::verify_hashed_value;
use crate::keys::keys_removed;
use crate::keys::lemma_keys_removed_props;
use crate::model::ApiKey;
use crate::model::AuthContext;
use crate::model::ServiceState;
use crate::scope::scope_from_json;
use crate::scope::scope_of_json;
use crate::text::extract_prefix;
use crate::text::prefix_of;

verus! {

/// The outcome of authentication: an identity with its scope, a clean
/// rejection, or a primitive failure (an unparsable stored hash or scope).
pub enum AuthDecision {
    Authorized { account_id: Seq<char>, scope: Seq<Seq<char>> },
    Rejected,
    Failure,
}

/// Walk the key table in order. A row is a candidate when its stored
/// prefix equals the part of `value` before the first `.`. The first
/// candidate whose hash verifies the full `value` authorizes its account
/// with its decoded scope; a candidate the hashing primitive cannot judge,
/// or whose stored scope does not decode, is a failure; if no candidate
/// verifies, the request is rejected.
pub open spec fn auth_decision(keys: Seq<ApiKey>, value: Seq<char>) -> AuthDecision
    decreases keys.len(),
{
    if keys.len() == 0 {
        AuthDecision::Rejected
    } else if keys[0].prefix@ != prefix_of(value) {
        auth_decision(keys.skip(1), value)
    } else {
        match bcrypt_verify_of(value, keys[0].secret_hash@) {
            None => AuthDecision::Failure,
            Some(true) => match scope_of_json(keys[0].scope_json@) {
                None => AuthDecision::Failure,
                Some(s) => AuthDecision::Authorized { account_id: keys[0].account_id@, scope: s },
            },
            Some(false) => auth_decision(keys.skip(1), value),
        }
    }
}

/// Authenticate a request from its credential header. A missing header is
/// rejected outright; otherwise the result is exactly [`auth_decision`] on
/// the key table and the header value: the identity context on success,
/// `Unauthenticated` on rejection, `Internal` on a primitive failure.
#[verifier::loop_isolation(false)]
pub fn verify_api_key(state: &ServiceState, header: Option<&String>) -> (r: Result<
    AuthContext,
    AppError,
>)
    ensures
        header is None ==> (r matches Err(e) && e.kind == ErrorKind::Unauthenticated),
        header matches Some(value) ==> {
            &&& (auth_decision(state.api_keys@, value@) matches AuthDecision::Authorized {
                account_id,
                scope,
            } ==> (r matches Ok(ctx) && ctx.account_id@ == account_id && ctx.scope.deep_view()
                == scope))
            &&& (auth_decision(state.api_keys@, value@) is Rejected ==> (r matches Err(e) && e.kind
                == ErrorKind::Unauthenticated))
            &&& (auth_decision(state.api_keys@, value@) is Failure ==> (r matches Err(e) && e.kind
                == ErrorKind::Internal))
        },
{
    let value = match header {
        Some(v) => v,
        None => {
            return Err(
                AppError::new(
                    ErrorKind::Unauthenticated,
                    String::from_str("No api key attached to this request"),
                ),
            );
        },
    };
    let prefix = extract_prefix(value.as_str());
    proof {
        assert(state.api_keys@.skip(0) =~= state.api_keys@);
    }
    let n = state.api_keys.len();
    let mut i: usize = 0;
    while i < n
        invariant
            i <= n,
            n == state.api_keys@.len(),
            prefix@ == prefix_of(value@),
            auth_decision(state.api_keys@, value@) == auth_decision(
                state.api_keys@.skip(i as int),
                value@,
            ),
        decreases n - i,
    {
        let k = &state.api_keys[i];
        proof {
            let t = state.api_keys@.skip(i as int);
            assert(t[0] == state.api_keys@[i as int]);
            assert(t.skip(1) =~= state.api_keys@.skip(i + 1));
        }
        if k.prefix == prefix {
            match verify_hashed_value(value.as_str(), k.secret_hash.as_str()) {
                Err(e) => {
                    proof {
                        assert(bcrypt_verify_of(value@, k.secret_hash@) is None);
                    }
                    return Err(e);
                },
                Ok(true) => {
                    match scope_from_json(k.scope_json.as_str()) {
                        Ok(sv) => {
                            return Ok(AuthContext { account_id: k.account_id.clone(), scope: sv });
                        },
                        Err(_) => {
                            return Err(
                                AppError::new(
                                    ErrorKind::Internal,
                                    String::from_str("unable to retrieve api key"),
                                ),
                            );
                        },
                    }
                },
                Ok(false) => {},
            }
        }
        i = i + 1;
    }
    proof {
        assert(state.api_keys@.skip(n as int) =~= Seq::<ApiKey>::empty());
    }
    Err(AppError::new(ErrorKind::Unauthenticated, String::from_str("Unable to get api key")))
}

/// Law: a freshly issued credential resolves to the key it was issued
/// with. If the key table ends with key `k`, the presented value's prefix
/// is `k`'s, `k`'s hash verifies the value, `k`'s stored scope decodes to
/// `scope`, and no earlier key with the same prefix verifies the value,
/// then authentication authorizes exactly `k`'s account with `scope` — and
/// keeps doing so on every later request while the table is unchanged,
/// since the decision is a function of the table and the value alone.
pub proof fn lemma_issued_credential_resolves(
    prior: Seq<ApiKey>,
    k: ApiKey,
    value: Seq<char>,
    scope: Seq<Seq<char>>,
)
    requires
        prefix_of(value) == k.prefix@,
        bcrypt_verify_of(value, k.secret_hash@) == Some(true),
        scope_of_json(k.scope_json@) == Some(scope),
        forall|j: int|
            0 <= j < prior.len() && prior[j].prefix@ == k.prefix@ ==> bcrypt_verify_of(
                value,
                (#[trigger] prior[j]).secret_hash@,
            ) == Some(false),
    ensures
        auth_decision(prior.push(k), value) == (AuthDecision::Authorized {
            account_id: k.account_id@,
            scope,
        }),
    decreases prior.len(),
{
    let s = prior.push(k);
    if prior.len() == 0 {
        assert(s[0] == k);
    } else {
        assert(s[0] == prior[0]);
        assert(s.skip(1) =~= prior.skip(1).push(k));
        assert forall|j: int|
            0 <= j < prior.skip(1).len() && prior.skip(1)[j].prefix@ == k.prefix@
            implies bcrypt_verify_of(value, (#[trigger] prior.skip(1)[j]).secret_hash@) == Some(
            false,
        ) by {
            assert(prior.skip(1)[j] == prior[j + 1]);
        }
        lemma_issued_credential_resolves(prior.skip(1), k, value, scope);
    }
}

/// Law: presenting the credential a successful issuance returned, against
/// the state that issuance left, authorizes the account issuance created
/// with the scope it stored — provided no key already in the table with
/// the same prefix happens to verify the same value.
pub proof fn lemma_issuance_then_auth(
    pre: ServiceState,
    post: ServiceState,
    name: Seq<char>,
    scope: Seq<Seq<char>>,
    email: Seq<char>,
    resp: crate::model::ApiKeyResponse,
)
    requires
        crate::keys::issuance_ok(pre, post, name, scope, email, resp),
        forall|j: int|
            0 <= j < pre.api_keys@.len() && pre.api_keys@[j].prefix@ == resp.prefix@
                ==> bcrypt_verify_of(resp.api_key@, (#[trigger] pre.api_keys@[j]).secret_hash@)
                == Some(false),
    ensures
        auth_decision(post.api_keys@, resp.api_key@) == (AuthDecision::Authorized {
            account_id: post.accounts@.last().id@,
            scope,
        }),
{
    let k = post.api_keys@.last();
    lemma_issued_credential_resolves(pre.api_keys@, k, resp.api_key@, scope);
}

/// If no key in the table both carries the presented value's prefix and
/// verifies it, authentication rejects the value.
pub proof fn lemma_unmatched_credential_rejected(keys: Seq<ApiKey>, value: Seq<char>)
    requires
        forall|j: int|
            0 <= j < keys.len() && keys[j].prefix@ == prefix_of(value) ==> bcrypt_verify_of(
                value,
                (#[trigger] keys[j]).secret_hash@,
            ) == Some(false),
    ensures
        auth_decision(keys, value) == AuthDecision::Rejected,
    decreases keys.len(),
{
    if keys.len() == 0 {
    } else {
        assert forall|j: int|
            0 <= j < keys.skip(1).len() && keys.skip(1)[j].prefix@ == prefix_of(value)
            implies bcrypt_verify_of(value, (#[trigger] keys.skip(1)[j]).secret_hash@) == Some(
            false,
        ) by {
            assert(keys.skip(1)[j] == keys[j + 1]);
        }
        lemma_unmatched_credential_rejected(keys.skip(1), value);
    }
}

/// Authorization only ever names a stored key's account: whenever the
/// decision is `Authorized`, some key in the table carries that account
/// id.
pub proof fn lemma_authorized_account_is_stored(keys: Seq<ApiKey>, value: Seq<char>)
    ensures
        auth_decision(keys, value) matches AuthDecision::Authorized { account_id, scope }
            ==> exists|j: int| 0 <= j < keys.len() && (#[trigger] keys[j]).account_id@
            == account_id,
    decreases keys.len(),
{
    if keys.len() == 0 {
    } else {
        let t = keys.skip(1);
        lemma_authorized_account_is_stored(t, value);
        match auth_decision(keys, value) {
            AuthDecision::Authorized { account_id, scope } => {
                if keys[0].prefix@ == prefix_of(value) && bcrypt_verify_of(
                    value,
                    keys[0].secret_hash@,
                ) == Some(true) {
                    assert(keys[0].account_id@ == account_id);
                } else {
                    let j = choose|j: int| 0 <= j < t.len() && t[j].account_id@ == account_id;
                    assert(keys[j + 1].account_id@ == account_id);
                }
            },
            _ => {},
        }
    }
}

/// Law: a deleted account can never authenticate again. After removing
/// every key of account `a`, no presented value can make the decision
/// authorize `a` — unconditionally, whatever other accounts' hashes
/// happen to verify.
pub proof fn lemma_deleted_account_never_authorized(
    keys: Seq<ApiKey>,
    a: Seq<char>,
    value: Seq<char>,
)
    ensures
        auth_decision(keys_removed(keys, a), value) matches AuthDecision::Authorized {
            account_id,
            scope,
        } ==> account_id != a,
{
    let r = keys_removed(keys, a);
    lemma_keys_removed_props(keys, a);
    lemma_authorized_account_is_stored(r, value);
    match auth_decision(r, value) {
        AuthDecision::Authorized { account_id, scope } => {
            let j = choose|j: int| 0 <= j < r.len() && r[j].account_id@ == account_id;
            assert(r[j].account_id@ != a);
        },
        _ => {},
    }
}

/// Law: deleting all keys of an account revokes its credentials. If every
/// key of another account that carries the presented value's prefix cleanly
/// fails to verify it (the credential was valid only for account `a`), then
/// after removing `a`'s keys authentication rejects the value.
pub proof fn lemma_deleted_account_credential_rejected(
    keys: Seq<ApiKey>,
    a: Seq<char>,
    value: Seq<char>,
)
    requires
        forall|j: int|
            0 <= j < keys.len() && keys[j].account_id@ != a && keys[j].prefix@ == prefix_of(value)
                ==> bcrypt_verify_of(value, (#[trigger] keys[j]).secret_hash@) == Some(false),
    ensures
        auth_decision(keys_removed(keys, a), value) == AuthDecision::Rejected,
{
    lemma_keys_removed_props(keys, a);
    let r = keys_removed(keys, a);
    assert forall|j: int|
        0 <= j < r.len() && r[j].prefix@ == prefix_of(value) implies bcrypt_verify_of(
        value,
        (#[trigger] r[j]).secret_hash@,
    ) == Some(false) by {
        let w = choose|w: int| 0 <= w < keys.len() && r[j] == keys[w];
        assert(keys[w].account_id@ != a);
    }
    lemma_unmatched_credential_rejected(r, value);
}

} // verus!
