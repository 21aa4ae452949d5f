//! Key issuance and key administration.
//!
//! Issuance is the one place an account is created: it validates the
//! caller's inputs, derives the credential `<prefix>.<token>` from the
//! clock and a random token, hashes it, and persists the account and the
//! key. The plaintext credential is returned exactly once; only its hash
//! persists.

use vstd::prelude::*;
use vstd::string::StringExecFns;
use crate::errors::AppError;
use crate::errors::ErrorKind;
use crate::hashing::bcrypt_verify_of;
use crate::hashing::hash_value;
use crate::ids::new_uuid;
use crate::ids::now_timestamp;
use crate::model::ApiKey;
use crate::model::ApiKeyResponse;
use crate::model::ApiKeysResponse;
use crate::model::AuthContext;
use crate::model::ServiceState;
use crate::model::account_id_taken;
use crate::model::key_id_taken;
use crate::scope::scope_from_json;
use crate::scope::scope_json_of;
use crate::scope::scope_of_json;
use crate::scope::scope_to_json;
use crate::text::dot_free;
use crate::text::i64_to_dec_string;
use crate::text::lemma_i64_dec_seq_dot_free;
use crate::text::lemma_prefix_of_credential;
use crate::text::make_credential;
use crate::text::prefix_of;

verus! {

/// The keys owned by account `a`, in store order.
pub open spec fn keys_of(keys: Seq<ApiKey>, a: Seq<char>) -> Seq<ApiKey>
    decreases keys.len(),
{
    if keys.len() == 0 {
        Seq::empty()
    } else {
        keys_of(keys.drop_last(), a) + (if keys.last().account_id@ == a {
            seq![keys.last()]
        } else {
            Seq::empty()
        })
    }
}

/// The store with every key owned by `a` taken out; the others keep their
/// order.
pub open spec fn keys_removed(keys: Seq<ApiKey>, a: Seq<char>) -> Seq<ApiKey>
    decreases keys.len(),
{
    if keys.len() == 0 {
        Seq::empty()
    } else {
        keys_removed(keys.drop_last(), a) + (if keys.last().account_id@ == a {
            Seq::empty()
        } else {
            seq![keys.last()]
        })
    }
}

/// Every stored scope of account `a` decodes as a JSON array of strings.
pub open spec fn account_scopes_parse(keys: Seq<ApiKey>, a: Seq<char>) -> bool {
    forall|i: int|
        0 <= i < keys.len() && keys[i].account_id@ == a ==> (#[trigger] scope_of_json(
            keys[i].scope_json@,
        )) is Some
}

/// A listing matches the filtered store row for row, exposing id, name,
/// decoded scope and prefix, and nothing else.
pub open spec fn summaries_match(rs: Seq<ApiKeysResponse>, ks: Seq<ApiKey>) -> bool {
    &&& rs.len() == ks.len()
    &&& forall|i: int|
        0 <= i < ks.len() ==> {
            &&& (#[trigger] rs[i]).id@ == ks[i].id@
            &&& rs[i].name@ == ks[i].name@
            &&& rs[i].prefix@ == ks[i].prefix@
            &&& Some(rs[i].scope.deep_view()) == scope_of_json(ks[i].scope_json@)
        }
}

/// What the key row persisted by issuance holds.
pub open spec fn issued_key_matches(
    k: ApiKey,
    key_id: Seq<char>,
    account_id: Seq<char>,
    name: Seq<char>,
    scope: Seq<Seq<char>>,
    secret_hash: Seq<char>,
    prefix: Seq<char>,
) -> bool {
    &&& k.id@ == key_id
    &&& k.account_id@ == account_id
    &&& k.name@ == name
    &&& k.scope_json@ == scope_json_of(scope)
    &&& scope_of_json(k.scope_json@) == Some(scope)
    &&& k.secret_hash@ == secret_hash
    &&& k.prefix@ == prefix
}

/// Bulk removal returns keys of other accounts only, each one of the old
/// rows, and keeps key ids unique.
pub proof fn lemma_keys_removed_props(keys: Seq<ApiKey>, a: Seq<char>)
    ensures
        forall|i: int|
            0 <= i < keys_removed(keys, a).len() ==> (#[trigger] keys_removed(
                keys,
                a,
            )[i]).account_id@ != a,
        forall|i: int|
            0 <= i < keys_removed(keys, a).len() ==> exists|j: int|
                0 <= j < keys.len() && #[trigger] keys_removed(keys, a)[i] == keys[j],
        (forall|i: int, j: int|
            0 <= i < j < keys.len() ==> keys[i].id@ != keys[j].id@) ==> (forall|i: int, j: int|
            0 <= i < j < keys_removed(keys, a).len() ==> keys_removed(keys, a)[i].id@
                != keys_removed(keys, a)[j].id@),
    decreases keys.len(),
{
    if keys.len() == 0 {
    } else {
        let dl = keys.drop_last();
        lemma_keys_removed_props(dl, a);
        let r = keys_removed(keys, a);
        let rdl = keys_removed(dl, a);
        assert forall|i: int| 0 <= i < r.len() implies (#[trigger] r[i]).account_id@ != a by {
            if i < rdl.len() {
                assert(r[i] == rdl[i]);
            } else {
                assert(r[i] == keys.last());
            }
        }
        assert forall|i: int| 0 <= i < r.len() implies exists|j: int|
            0 <= j < keys.len() && #[trigger] r[i] == keys[j] by {
            if i < rdl.len() {
                let j = choose|j: int| 0 <= j < dl.len() && rdl[i] == dl[j];
                assert(r[i] == keys[j]);
            } else {
                assert(r[i] == keys[keys.len() - 1]);
            }
        }
        if forall|i: int, j: int| 0 <= i < j < keys.len() ==> keys[i].id@ != keys[j].id@ {
            assert(forall|i: int, j: int| 0 <= i < j < dl.len() ==> dl[i].id@ != dl[j].id@);
            assert forall|i: int, j: int| 0 <= i < j < r.len() implies r[i].id@ != r[j].id@ by {
                if j < rdl.len() {
                } else {
                    let w = choose|w: int| 0 <= w < dl.len() && rdl[i] == dl[w];
                    assert(r[j] == keys.last());
                    assert(r[i].id@ == keys[w].id@);
                }
            }
        }
    }
}

/// A field-for-field copy, equal to the original.
fn api_key_clone(k: &ApiKey) -> (r: ApiKey)
    ensures
        r == *k,
{
    ApiKey {
        id: k.id.clone(),
        account_id: k.account_id.clone(),
        name: k.name.clone(),
        scope_json: k.scope_json.clone(),
        secret_hash: k.secret_hash.clone(),
        prefix: k.prefix.clone(),
    }
}

/// Persist a fresh account and a fresh key built from already-validated and
/// already-derived parts, and assemble the one-time response. Succeeds
/// exactly when neither generated id is already in use; a duplicate id is
/// the store's key violation, an internal error.
#[verifier::loop_isolation(false)]
pub fn issue_with_parts(
    state: &mut ServiceState,
    name: String,
    scope: Vec<String>,
    email: String,
    prefix: String,
    credential: String,
    secret_hash: String,
    account_id: String,
    key_id: String,
) -> (r: Result<ApiKeyResponse, AppError>)
    requires
        old(state).wf(),
    ensures
        final(state).wf(),
        final(state).notes@ == old(state).notes@,
        (!account_id_taken(old(state).accounts@, account_id@) && !key_id_taken(
            old(state).api_keys@,
            key_id@,
        )) ==> (r matches Ok(resp) && {
            &&& final(state).accounts@ == old(state).accounts@.push(final(state).accounts@.last())
            &&& final(state).accounts@.last().id@ == account_id@
            &&& final(state).accounts@.last().email@ == email@
            &&& final(state).api_keys@ == old(state).api_keys@.push(final(state).api_keys@.last())
            &&& issued_key_matches(
                final(state).api_keys@.last(),
                key_id@,
                account_id@,
                name@,
                scope.deep_view(),
                secret_hash@,
                prefix@,
            )
            &&& resp.id@ == key_id@
            &&& resp.name@ == name@
            &&& resp.scope == scope
            &&& resp.api_key == credential
            &&& resp.prefix@ == prefix@
        }),
        (account_id_taken(old(state).accounts@, account_id@) || key_id_taken(
            old(state).api_keys@,
            key_id@,
        )) ==> (r matches Err(e) && e.kind == ErrorKind::Internal && *final(state) == *old(state)),
{
    let na = state.accounts.len();
    let mut i: usize = 0;
    while i < na
        invariant
            i <= na,
            na == state.accounts@.len(),
            forall|j: int| 0 <= j < i ==> state.accounts@[j].id@ != account_id@,
        decreases na - i,
    {
        if state.accounts[i].id == account_id {
            return Err(AppError::new(ErrorKind::Internal, String::from_str("error creating user")));
        }
        i = i + 1;
    }
    let nk = state.api_keys.len();
    let mut j: usize = 0;
    while j < nk
        invariant
            j <= nk,
            nk == state.api_keys@.len(),
            forall|p: int| 0 <= p < j ==> state.api_keys@[p].id@ != key_id@,
        decreases nk - j,
    {
        if state.api_keys[j].id == key_id {
            return Err(
                AppError::new(ErrorKind::Internal, String::from_str("error creating api key")),
            );
        }
        j = j + 1;
    }
    let scope_json = scope_to_json(&scope);
    let account = crate::model::Account { id: account_id.clone(), email };
    state.accounts.push(account);
    let key = ApiKey {
        id: key_id.clone(),
        account_id,
        name: name.clone(),
        scope_json,
        secret_hash,
        prefix: prefix.clone(),
    };
    state.api_keys.push(key);
    let resp = ApiKeyResponse { id: key_id, name, scope, api_key: credential, prefix };
    proof {
        assert(state.accounts@ =~= old(state).accounts@.push(state.accounts@.last()));
        assert(state.api_keys@ =~= old(state).api_keys@.push(state.api_keys@.last()));
        assert forall|p: int, q: int|
            0 <= p < q < state.accounts@.len() implies state.accounts@[p].id@
            != state.accounts@[q].id@ by {
            if q < state.accounts@.len() - 1 {
                assert(old(state).wf());
            }
        }
        assert forall|p: int, q: int|
            0 <= p < q < state.api_keys@.len() implies state.api_keys@[p].id@
            != state.api_keys@[q].id@ by {
            if q < state.api_keys@.len() - 1 {
                assert(old(state).wf());
            }
        }
    }
    Ok(resp)
}

/// Whether the state changed by a successful issuance call relates to the
/// prior state, the validated inputs and the one-time response as issuance
/// promises: one new account carrying the email, one new key bound to it
/// holding the hash of the returned credential, whose prefix is the
/// dot-free leading half of that credential.
pub open spec fn issuance_ok(
    pre: ServiceState,
    post: ServiceState,
    name: Seq<char>,
    scope: Seq<Seq<char>>,
    email: Seq<char>,
    resp: ApiKeyResponse,
) -> bool {
    &&& post.notes@ == pre.notes@
    &&& post.accounts@ == pre.accounts@.push(post.accounts@.last())
    &&& post.accounts@.last().email@ == email
    &&& post.api_keys@ == pre.api_keys@.push(post.api_keys@.last())
    &&& post.api_keys@.last().account_id@ == post.accounts@.last().id@
    &&& post.api_keys@.last().id@ == resp.id@
    &&& post.api_keys@.last().name@ == name
    &&& scope_of_json(post.api_keys@.last().scope_json@) == Some(scope)
    &&& post.api_keys@.last().prefix@ == resp.prefix@
    &&& resp.name@ == name
    &&& resp.scope.deep_view() == scope
    &&& bcrypt_verify_of(resp.api_key@, post.api_keys@.last().secret_hash@) == Some(true)
    &&& forall|v: Seq<char>|
        (#[trigger] bcrypt_verify_of(v, post.api_keys@.last().secret_hash@)) is Some
    &&& dot_free(resp.prefix@)
    &&& prefix_of(resp.api_key@) == resp.prefix@
    &&& exists|token: Seq<char>| resp.api_key@ == resp.prefix@ + seq!['.'] + token
}

/// Issue a credential: validate that name, scope and email are present,
/// derive the prefix from the clock and the token from randomness, hash
/// `<prefix>.<token>`, and persist a fresh account and key. On success the
/// returned record and the new state satisfy [`issuance_ok`]; every failure
/// past validation is internal (a hashing-primitive fault or a generated-id
/// collision).
pub fn generate_api_key(
    state: &mut ServiceState,
    name: Option<String>,
    scope: Option<Vec<String>>,
    email: Option<String>,
) -> (r: Result<ApiKeyResponse, AppError>)
    requires
        old(state).wf(),
    ensures
        final(state).wf(),
        final(state).notes@ == old(state).notes@,
        (name is None || scope is None) ==> (r matches Err(e) && e.kind == ErrorKind::Validation
            && *final(state) == *old(state)),
        (name is Some && scope is Some && email is None) ==> (r matches Err(e) && e.kind
            == ErrorKind::Validation && *final(state) == *old(state)),
        (name is Some && scope is Some && email is Some) ==> (r matches Err(e) ==> (e.kind
            == ErrorKind::Internal && *final(state) == *old(state))),
        (name is Some && scope is Some && email is Some) ==> (r matches Ok(resp) ==> issuance_ok(
            *old(state),
            *final(state),
            name->0@,
            scope->0.deep_view(),
            email->0@,
            resp,
        )),
{
    if name.is_none() || scope.is_none() {
        return Err(
            AppError::new(
                ErrorKind::Validation,
                String::from_str("Expected key `name` or `scope` to be passed, but found null"),
            ),
        );
    }
    match email {
        None => Err(
            AppError::new(
                ErrorKind::Validation,
                String::from_str("Expected key `email` to be passed, but gave null"),
            ),
        ),
        Some(email) => {
            let name = name.unwrap();
            let scope = scope.unwrap();
            let ts = now_timestamp();
            let prefix = i64_to_dec_string(ts);
            let token = new_uuid();
            let credential = make_credential(&prefix, &token);
            proof {
                lemma_i64_dec_seq_dot_free(ts as int);
                lemma_prefix_of_credential(prefix@, token@);
            }
            let hashed = match hash_value(credential.as_str()) {
                Ok(h) => h,
                Err(e) => {
                    return Err(e);
                },
            };
            let account_id = new_uuid();
            let key_id = new_uuid();
            issue_with_parts(
                state,
                name,
                scope,
                email,
                prefix,
                credential,
                hashed,
                account_id,
                key_id,
            )
        },
    }
}

/// List the caller's keys: id, name, decoded scope and prefix of each key
/// owned by the caller's account, never the hash and never a plaintext
/// credential. Fails internally exactly when a stored scope does not
/// decode.
#[verifier::loop_isolation(false)]
pub fn get_all_api_keys(state: &ServiceState, ctx: &AuthContext) -> (r: Result<
    Vec<ApiKeysResponse>,
    AppError,
>)
    ensures
        account_scopes_parse(state.api_keys@, ctx.account_id@) ==> (r matches Ok(v)
            && summaries_match(v@, keys_of(state.api_keys@, ctx.account_id@))),
        !account_scopes_parse(state.api_keys@, ctx.account_id@) ==> (r matches Err(e) && e.kind
            == ErrorKind::Internal),
{
    let ghost a = ctx.account_id@;
    let n = state.api_keys.len();
    let mut out: Vec<ApiKeysResponse> = Vec::new();
    let mut i: usize = 0;
    while i < n
        invariant
            i <= n,
            n == state.api_keys@.len(),
            a == ctx.account_id@,
            summaries_match(out@, keys_of(state.api_keys@.take(i as int), a)),
            forall|j: int|
                0 <= j < i && state.api_keys@[j].account_id@ == a ==> (#[trigger] scope_of_json(
                    state.api_keys@[j].scope_json@,
                )) is Some,
        decreases n - i,
    {
        let k = &state.api_keys[i];
        if k.account_id == ctx.account_id {
            match scope_from_json(k.scope_json.as_str()) {
                Ok(sv) => {
                    out.push(
                        ApiKeysResponse {
                            id: k.id.clone(),
                            name: k.name.clone(),
                            scope: sv,
                            prefix: k.prefix.clone(),
                        },
                    );
                },
                Err(_) => {
                    proof {
                        assert(state.api_keys@[i as int].account_id@ == a);
                    }
                    return Err(
                        AppError::new(
                            ErrorKind::Internal,
                            String::from_str("error getting api keys"),
                        ),
                    );
                },
            }
        }
        proof {
            let t = state.api_keys@.take(i + 1);
            assert(t.drop_last() =~= state.api_keys@.take(i as int));
            assert(t.last() == state.api_keys@[i as int]);
            assert(summaries_match(out@, keys_of(t, a)));
        }
        i = i + 1;
    }
    proof {
        assert(state.api_keys@.take(n as int) =~= state.api_keys@);
    }
    Ok(out)
}

/// Delete every key owned by the caller's account. Always reports success;
/// other accounts' keys are untouched.
#[verifier::loop_isolation(false)]
pub fn delete_api_key(state: &mut ServiceState, ctx: &AuthContext) -> (r: Result<(), AppError>)
    requires
        old(state).wf(),
    ensures
        final(state).wf(),
        final(state).accounts@ == old(state).accounts@,
        final(state).notes@ == old(state).notes@,
        r is Ok,
        final(state).api_keys@ == keys_removed(old(state).api_keys@, ctx.account_id@),
{
    let ghost a = ctx.account_id@;
    let ghost pre = *state;
    let n = state.api_keys.len();
    let mut out: Vec<ApiKey> = Vec::new();
    let mut i: usize = 0;
    while i < n
        invariant
            i <= n,
            *state == pre,
            n == state.api_keys@.len(),
            a == ctx.account_id@,
            out@ == keys_removed(state.api_keys@.take(i as int), a),
        decreases n - i,
    {
        let k = &state.api_keys[i];
        if !(k.account_id == ctx.account_id) {
            out.push(api_key_clone(k));
        }
        proof {
            let t = state.api_keys@.take(i + 1);
            assert(t.drop_last() =~= state.api_keys@.take(i as int));
            assert(t.last() == state.api_keys@[i as int]);
            assert(out@ =~= keys_removed(t, a));
        }
        i = i + 1;
    }
    proof {
        assert(state.api_keys@.take(n as int) =~= state.api_keys@);
        lemma_keys_removed_props(state.api_keys@, a);
    }
    state.api_keys = out;
    Ok(())
}

/// The named single-key update endpoint of the service: present in the
/// interface, unconditionally unimplemented, always an internal failure.
pub fn update_api_key(_api_key_id: u32, _ctx: &AuthContext) -> (r: Result<(), AppError>)
    ensures
        r matches Err(e) && e.kind == ErrorKind::Internal,
{
    Err(AppError::new(ErrorKind::Internal, String::from_str("Internal error")))
}

} // verus!
