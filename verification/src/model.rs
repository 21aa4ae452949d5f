//! The data model: accounts, API keys, notes, the request-scoped
//! authentication context, and the service state with its well-formedness
//! invariant.

use vstd::prelude::*;

verus! {

/// An account, created implicitly at key issuance. The email is caller
/// supplied and not checked for uniqueness: two issuance calls with the same
/// email produce two distinct accounts.
pub struct Account {
    pub id: String,
    pub email: String,
}

/// A persisted API key. `scope_json` is the scope list serialized as JSON
/// (as the store's schema keeps it); `secret_hash` is the salted one-way
/// hash of the full credential; `prefix` is the non-secret, second-resolution
/// lookup half of the credential, stored in cleartext.
pub struct ApiKey {
    pub id: String,
    pub account_id: String,
    pub name: String,
    pub scope_json: String,
    pub secret_hash: String,
    pub prefix: String,
}

/// A note owned by one account. `created_at` is a server-assigned timestamp.
pub struct Note {
    pub id: String,
    pub account_id: String,
    pub created_at: i64,
    pub title: String,
    pub description: String,
}

/// The request-scoped authenticated identity: who the verified credential
/// belongs to and which permission scope it carries. Never persisted.
pub struct AuthContext {
    pub account_id: String,
    pub scope: Vec<String>,
}

/// The body of a note-creation request.
pub struct NoteRequest {
    pub title: String,
    pub description: String,
}

/// The body of a note-update request; at least one field must be present.
pub struct UpdateNoteRequest {
    pub title: Option<String>,
    pub description: Option<String>,
}

/// What issuance returns: the plaintext credential is shown here exactly
/// once; only its hash persists.
pub struct ApiKeyResponse {
    pub id: String,
    pub name: String,
    pub scope: Vec<String>,
    pub api_key: String,
    pub prefix: String,
}

/// A key as listed to its owner: never the hash, never the plaintext.
pub struct ApiKeysResponse {
    pub id: String,
    pub name: String,
    pub scope: Vec<String>,
    pub prefix: String,
}

/// The whole store: every operation reads or writes exactly one of these
/// three tables, always constrained by an account id.
pub struct ServiceState {
    pub accounts: Vec<Account>,
    pub api_keys: Vec<ApiKey>,
    pub notes: Vec<Note>,
}

pub open spec fn account_id_taken(accounts: Seq<Account>, id: Seq<char>) -> bool {
    exists|i: int| 0 <= i < accounts.len() && accounts[i].id@ == id
}

pub open spec fn key_id_taken(keys: Seq<ApiKey>, id: Seq<char>) -> bool {
    exists|i: int| 0 <= i < keys.len() && keys[i].id@ == id
}

pub open spec fn note_id_taken(notes: Seq<Note>, id: Seq<char>) -> bool {
    exists|i: int| 0 <= i < notes.len() && notes[i].id@ == id
}

impl ServiceState {
    /// Well-formedness: row identifiers are unique within each table, as the
    /// store's primary keys guarantee. Every operation preserves this.
    pub open spec fn wf(&self) -> bool {
        &&& forall|i: int, j: int|
            0 <= i < j < self.accounts@.len() ==> self.accounts@[i].id@ != self.accounts@[j].id@
        &&& forall|i: int, j: int|
            0 <= i < j < self.api_keys@.len() ==> self.api_keys@[i].id@ != self.api_keys@[j].id@
        &&& forall|i: int, j: int|
            0 <= i < j < self.notes@.len() ==> self.notes@[i].id@ != self.notes@[j].id@
    }

    /// An empty store, trivially well formed.
    pub fn new() -> (r: ServiceState)
        ensures
            r.wf(),
            r.accounts@ =~= Seq::<Account>::empty(),
            r.api_keys@ =~= Seq::<ApiKey>::empty(),
            r.notes@ =~= Seq::<Note>::empty(),
    {
        ServiceState { accounts: Vec::new(), api_keys: Vec::new(), notes: Vec::new() }
    }
}

/// A field-for-field copy, equal to the original.
pub fn note_clone(n: &Note) -> (r: Note)
    ensures
        r == *n,
{
    Note {
        id: n.id.clone(),
        account_id: n.account_id.clone(),
        created_at: n.created_at,
        title: n.title.clone(),
        description: n.description.clone(),
    }
}

} // verus!
