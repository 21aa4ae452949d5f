//! Note storage, scoped to an authenticated account. Every operation
//! constrains its reads and writes by the account id of the caller's
//! [`AuthContext`], so one account can never observe or mutate another's
//! notes.

use vstd::prelude::*;
use vstd::string::StringExecFns;
use crate::errors::AppError;
use crate::errors::ErrorKind;
use crate::ids::new_uuid;
use crate::ids::now_timestamp;
use crate::model::AuthContext;
use crate::model::Note;
use crate::model::NoteRequest;
use crate::model::ServiceState;
use crate::model::UpdateNoteRequest;
use crate::model::note_id_taken;
use crate::model::note_clone;

verus! {

/// The notes owned by account `a`, in store order.
pub open spec fn notes_of(notes: Seq<Note>, a: Seq<char>) -> Seq<Note>
    decreases notes.len(),
{
    if notes.len() == 0 {
        Seq::empty()
    } else {
        notes_of(notes.drop_last(), a) + (if notes.last().account_id@ == a {
            seq![notes.last()]
        } else {
            Seq::empty()
        })
    }
}

/// Every note in a listing for `a` is owned by `a`.
pub proof fn lemma_notes_of_owner(notes: Seq<Note>, a: Seq<char>)
    ensures
        forall|i: int|
            0 <= i < notes_of(notes, a).len() ==> #[trigger] notes_of(notes, a)[i].account_id@
                == a,
    decreases notes.len(),
{
    if notes.len() == 0 {
    } else {
        let dl = notes.drop_last();
        lemma_notes_of_owner(dl, a);
        assert forall|i: int|
            0 <= i < notes_of(notes, a).len() implies #[trigger] notes_of(notes, a)[i].account_id@
            == a by {
            if i < notes_of(dl, a).len() {
                assert(notes_of(notes, a)[i] == notes_of(dl, a)[i]);
            } else {
                assert(notes_of(notes, a)[i] == notes.last());
            }
        }
    }
}

/// Listings are account-scoped: for any two distinct accounts, listing the
/// notes of the one never returns a note owned by the other.
pub proof fn lemma_listing_never_crosses_accounts(notes: Seq<Note>, a: Seq<char>, b: Seq<char>)
    requires
        a != b,
    ensures
        forall|i: int|
            0 <= i < notes_of(notes, a).len() ==> #[trigger] notes_of(notes, a)[i].account_id@
                != b,
{
    lemma_notes_of_owner(notes, a);
}

/// The first note owned by `a` whose id is `id`, if any. Under
/// [`ServiceState::wf`] note ids are unique, so "first" is "the one".
pub open spec fn note_lookup(notes: Seq<Note>, a: Seq<char>, id: Seq<char>) -> Option<Note>
    decreases notes.len(),
{
    if notes.len() == 0 {
        None
    } else if notes[0].account_id@ == a && notes[0].id@ == id {
        Some(notes[0])
    } else {
        note_lookup(notes.skip(1), a, id)
    }
}

/// The store with every note matching both `a` and `id` taken out; the
/// others keep their order.
pub open spec fn notes_removed(notes: Seq<Note>, a: Seq<char>, id: Seq<char>) -> Seq<Note>
    decreases notes.len(),
{
    if notes.len() == 0 {
        Seq::empty()
    } else {
        notes_removed(notes.drop_last(), a, id) + (if notes.last().account_id@ == a
            && notes.last().id@ == id {
            Seq::empty()
        } else {
            seq![notes.last()]
        })
    }
}

/// Removal returns a subset of the store (each survivor is one of the old
/// notes), and therefore keeps note ids unique.
proof fn lemma_notes_removed_props(notes: Seq<Note>, a: Seq<char>, id: Seq<char>)
    ensures
        forall|i: int|
            0 <= i < notes_removed(notes, a, id).len() ==> exists|j: int|
                0 <= j < notes.len() && #[trigger] notes_removed(notes, a, id)[i] == notes[j],
        (forall|i: int, j: int|
            0 <= i < j < notes.len() ==> notes[i].id@ != notes[j].id@) ==> (forall|i: int, j: int|
            0 <= i < j < notes_removed(notes, a, id).len() ==> notes_removed(notes, a, id)[i].id@
                != notes_removed(notes, a, id)[j].id@),
    decreases notes.len(),
{
    if notes.len() == 0 {
    } else {
        let dl = notes.drop_last();
        lemma_notes_removed_props(dl, a, id);
        let r = notes_removed(notes, a, id);
        let rdl = notes_removed(dl, a, id);
        assert forall|i: int| 0 <= i < r.len() implies exists|j: int|
            0 <= j < notes.len() && #[trigger] r[i] == notes[j] by {
            if i < rdl.len() {
                let j = choose|j: int| 0 <= j < dl.len() && rdl[i] == dl[j];
                assert(r[i] == notes[j]);
            } else {
                assert(r[i] == notes[notes.len() - 1]);
            }
        }
        if forall|i: int, j: int| 0 <= i < j < notes.len() ==> notes[i].id@ != notes[j].id@ {
            assert(forall|i: int, j: int| 0 <= i < j < dl.len() ==> dl[i].id@ != dl[j].id@);
            assert forall|i: int, j: int| 0 <= i < j < r.len() implies r[i].id@ != r[j].id@ by {
                if j < rdl.len() {
                } else {
                    let w = choose|w: int| 0 <= w < dl.len() && rdl[i] == dl[w];
                    assert(r[j] == notes.last());
                    assert(r[i].id@ == notes[w].id@);
                }
            }
        }
    }
}

/// List the caller's notes: exactly the notes owned by the caller's
/// account, in store order.
#[verifier::loop_isolation(false)]
pub fn get_all_notes(state: &ServiceState, ctx: &AuthContext) -> (r: Vec<Note>)
    ensures
        r@ == notes_of(state.notes@, ctx.account_id@),
{
    let ghost a = ctx.account_id@;
    let n = state.notes.len();
    let mut out: Vec<Note> = Vec::new();
    let mut i: usize = 0;
    while i < n
        invariant
            i <= n,
            n == state.notes@.len(),
            a == ctx.account_id@,
            out@ == notes_of(state.notes@.take(i as int), a),
        decreases n - i,
    {
        let note = &state.notes[i];
        if note.account_id == ctx.account_id {
            out.push(note_clone(note));
        }
        proof {
            let t = state.notes@.take(i + 1);
            assert(t.drop_last() =~= state.notes@.take(i as int));
            assert(t.last() == state.notes@[i as int]);
            assert(out@ =~= notes_of(t, a));
        }
        i = i + 1;
    }
    proof {
        assert(state.notes@.take(n as int) =~= state.notes@);
    }
    out
}

/// Fetch one note by id, scoped to the caller's account; a note that does
/// not exist under that account is a not-found condition, never an internal
/// one.
#[verifier::loop_isolation(false)]
pub fn get_note(state: &ServiceState, ctx: &AuthContext, note_id: &String) -> (r: Result<
    Note,
    AppError,
>)
    ensures
        note_lookup(state.notes@, ctx.account_id@, note_id@) matches Some(n) ==> (r matches Ok(m)
            && m == n),
        note_lookup(state.notes@, ctx.account_id@, note_id@) is None ==> (r matches Err(e)
            && e.kind == ErrorKind::NotFound),
{
    let ghost a = ctx.account_id@;
    let ghost id = note_id@;
    proof {
        assert(state.notes@.skip(0) =~= state.notes@);
    }
    let n = state.notes.len();
    let mut i: usize = 0;
    while i < n
        invariant
            i <= n,
            n == state.notes@.len(),
            a == ctx.account_id@,
            id == note_id@,
            note_lookup(state.notes@, a, id) == note_lookup(state.notes@.skip(i as int), a, id),
        decreases n - i,
    {
        let note = &state.notes[i];
        proof {
            let t = state.notes@.skip(i as int);
            assert(t[0] == state.notes@[i as int]);
            assert(t.skip(1) =~= state.notes@.skip(i + 1));
        }
        if note.account_id == ctx.account_id && note.id == *note_id {
            return Ok(note_clone(note));
        }
        i = i + 1;
    }
    proof {
        assert(state.notes@.skip(n as int) =~= Seq::<Note>::empty());
    }
    Err(AppError::new(ErrorKind::NotFound, String::from_str("note does not exist")))
}

/// Create a note under the caller's account with a given fresh id and
/// server-assigned timestamp. Succeeds exactly when the id is not already
/// in use; a duplicate id is the store's key violation, an internal error.
#[verifier::loop_isolation(false)]
pub fn post_note_with_id(
    state: &mut ServiceState,
    ctx: &AuthContext,
    id: String,
    created_at: i64,
    req: &NoteRequest,
) -> (r: Result<Note, AppError>)
    requires
        old(state).wf(),
    ensures
        final(state).wf(),
        final(state).accounts@ == old(state).accounts@,
        final(state).api_keys@ == old(state).api_keys@,
        !note_id_taken(old(state).notes@, id@) ==> (r matches Ok(m) && m.id == id
            && m.account_id == ctx.account_id && m.created_at == created_at && m.title == req.title
            && m.description == req.description && final(state).notes@ == old(state).notes@.push(m)),
        note_id_taken(old(state).notes@, id@) ==> (r matches Err(e) && e.kind
            == ErrorKind::Internal && final(state).notes@ == old(state).notes@),
{
    let ghost pre = *state;
    let n = state.notes.len();
    let mut i: usize = 0;
    while i < n
        invariant
            i <= n,
            *state == pre,
            pre == *old(state),
            n == state.notes@.len(),
            forall|j: int| 0 <= j < i ==> state.notes@[j].id@ != id@,
        decreases n - i,
    {
        if state.notes[i].id == id {
            return Err(
                AppError::new(ErrorKind::Internal, String::from_str("error creating note")),
            );
        }
        i = i + 1;
    }
    let note = Note {
        id,
        account_id: ctx.account_id.clone(),
        created_at,
        title: req.title.clone(),
        description: req.description.clone(),
    };
    let out = note_clone(&note);
    state.notes.push(note);
    proof {
        assert(state.notes@ =~= old(state).notes@.push(out));
        assert forall|p: int, q: int|
            0 <= p < q < state.notes@.len() implies state.notes@[p].id@ != state.notes@[q].id@ by {
            if q < state.notes@.len() - 1 {
                assert(old(state).wf());
            }
        }
    }
    Ok(out)
}

/// Create a note: the server assigns a fresh random id and the current
/// timestamp, then stores the caller's title and description under the
/// caller's account. Fails (internally) only if the generated id collides
/// with an existing row's.
pub fn post_note(state: &mut ServiceState, ctx: &AuthContext, req: &NoteRequest) -> (r: Result<
    Note,
    AppError,
>)
    requires
        old(state).wf(),
    ensures
        final(state).wf(),
        final(state).accounts@ == old(state).accounts@,
        final(state).api_keys@ == old(state).api_keys@,
        r matches Ok(m) ==> (m.account_id == ctx.account_id && m.title == req.title
            && m.description == req.description && final(state).notes@ == old(state).notes@.push(m)),
        r matches Err(e) ==> (e.kind == ErrorKind::Internal && final(state).notes@ == old(
            state,
        ).notes@),
        old(state).notes@.len() == 0 ==> r is Ok,
{
    let id = new_uuid();
    let created_at = now_timestamp();
    post_note_with_id(state, ctx, id, created_at, req)
}

/// Whether an updated note keeps the old fields where the request supplies
/// none, and takes the supplied values where it does.
pub open spec fn note_fields_updated(m: Note, n0: Note, req: UpdateNoteRequest) -> bool {
    &&& m.id == n0.id
    &&& m.account_id == n0.account_id
    &&& m.created_at == n0.created_at
    &&& (match req.title {
        Some(t) => m.title == t,
        None => m.title == n0.title,
    })
    &&& (match req.description {
        Some(d) => m.description == d,
        None => m.description == n0.description,
    })
}

/// The store after replacing the note matching `a` and `id` by `m`,
/// position for position.
pub open spec fn notes_replaced(
    before: Seq<Note>,
    after: Seq<Note>,
    a: Seq<char>,
    id: Seq<char>,
    m: Note,
) -> bool {
    &&& after.len() == before.len()
    &&& forall|k: int|
        0 <= k < before.len() ==> after[k] == (if before[k].account_id@ == a && before[k].id@ == id {
            m
        } else {
            before[k]
        })
}

/// Update a note, scoped to the caller's account. At least one field must
/// be supplied, else the request is invalid; fields not supplied keep their
/// prior values; a note absent under the caller's account is not found.
#[verifier::loop_isolation(false)]
pub fn update_note(
    state: &mut ServiceState,
    ctx: &AuthContext,
    note_id: &String,
    req: &UpdateNoteRequest,
) -> (r: Result<Note, AppError>)
    requires
        old(state).wf(),
    ensures
        final(state).wf(),
        final(state).accounts@ == old(state).accounts@,
        final(state).api_keys@ == old(state).api_keys@,
        (req.title is None && req.description is None) ==> (r matches Err(e) && e.kind
            == ErrorKind::Validation && final(state).notes@ == old(state).notes@),
        (req.title is Some || req.description is Some) && note_lookup(
            old(state).notes@,
            ctx.account_id@,
            note_id@,
        ) is None ==> (r matches Err(e) && e.kind == ErrorKind::NotFound && final(state).notes@ == old(
            state,
        ).notes@),
        (req.title is Some || req.description is Some) ==> (note_lookup(
            old(state).notes@,
            ctx.account_id@,
            note_id@,
        ) matches Some(n0) ==> (r matches Ok(m) && note_fields_updated(m, n0, *req)
            && notes_replaced(old(state).notes@, final(state).notes@, ctx.account_id@, note_id@, m))),
{
    if req.title.is_none() && req.description.is_none() {
        return Err(
            AppError::new(ErrorKind::Validation, String::from_str("No value present to update")),
        );
    }
    let ghost a = ctx.account_id@;
    let ghost id = note_id@;
    let ghost pre = *state;
    proof {
        assert(state.notes@.skip(0) =~= state.notes@);
    }
    let n = state.notes.len();
    let mut i: usize = 0;
    while i < n
        invariant
            i <= n,
            *state == pre,
            pre == *old(state),
            n == state.notes@.len(),
            a == ctx.account_id@,
            id == note_id@,
            note_lookup(state.notes@, a, id) == note_lookup(state.notes@.skip(i as int), a, id),
        decreases n - i,
    {
        proof {
            let t = state.notes@.skip(i as int);
            assert(t[0] == state.notes@[i as int]);
            assert(t.skip(1) =~= state.notes@.skip(i + 1));
        }
        let hit = state.notes[i].account_id == ctx.account_id && state.notes[i].id == *note_id;
        if hit {
            proof {
                let t = state.notes@.skip(i as int);
                assert(note_lookup(t, a, id) == Some(t[0]));
                assert(note_lookup(state.notes@, a, id) == Some(state.notes@[i as int]));
            }
            let stored = &state.notes[i];
            let updated = Note {
                id: stored.id.clone(),
                account_id: stored.account_id.clone(),
                created_at: stored.created_at,
                title: (match &req.title {
                    Some(t) => t.clone(),
                    None => stored.title.clone(),
                }),
                description: (match &req.description {
                    Some(d) => d.clone(),
                    None => stored.description.clone(),
                }),
            };
            let out = note_clone(&updated);
            let ghost n0 = state.notes@[i as int];
            let _ = state.notes.remove(i);
            state.notes.insert(i, updated);
            proof {
                assert(state.notes@ =~= old(state).notes@.update(i as int, out));
                assert(note_lookup(old(state).notes@, a, id) == Some(n0));
                assert forall|p: int, q: int|
                    0 <= p < q < state.notes@.len() implies state.notes@[p].id@
                    != state.notes@[q].id@ by {
                    assert(old(state).wf());
                    assert(old(state).notes@[p].id@ != old(state).notes@[q].id@);
                }
                assert forall|k: int| 0 <= k < old(state).notes@.len() implies state.notes@[k]
                    == (if old(state).notes@[k].account_id@ == a && old(state).notes@[k].id@ == id {
                    out
                } else {
                    old(state).notes@[k]
                }) by {
                    if k != i && old(state).notes@[k].account_id@ == a && old(
                        state,
                    ).notes@[k].id@ == id {
                        assert(old(state).notes@[k].id@ == old(state).notes@[i as int].id@);
                        assert(old(state).wf());
                    }
                }
            }
            return Ok(out);
        }
        i = i + 1;
    }
    proof {
        assert(state.notes@.skip(n as int) =~= Seq::<Note>::empty());
    }
    Err(AppError::new(ErrorKind::NotFound, String::from_str("note does not exist")))
}

/// Delete a note by id under the caller's account. Idempotent: deleting an
/// id that does not exist still reports success.
#[verifier::loop_isolation(false)]
pub fn delete_note(state: &mut ServiceState, ctx: &AuthContext, note_id: &String) -> (r: Result<
    (),
    AppError,
>)
    requires
        old(state).wf(),
    ensures
        final(state).wf(),
        final(state).accounts@ == old(state).accounts@,
        final(state).api_keys@ == old(state).api_keys@,
        r is Ok,
        final(state).notes@ == notes_removed(old(state).notes@, ctx.account_id@, note_id@),
{
    let ghost a = ctx.account_id@;
    let ghost id = note_id@;
    let ghost pre = *state;
    let n = state.notes.len();
    let mut out: Vec<Note> = Vec::new();
    let mut i: usize = 0;
    while i < n
        invariant
            i <= n,
            *state == pre,
            pre == *old(state),
            n == state.notes@.len(),
            a == ctx.account_id@,
            id == note_id@,
            out@ == notes_removed(state.notes@.take(i as int), a, id),
        decreases n - i,
    {
        let note = &state.notes[i];
        if !(note.account_id == ctx.account_id && note.id == *note_id) {
            out.push(note_clone(note));
        }
        proof {
            let t = state.notes@.take(i + 1);
            assert(t.drop_last() =~= state.notes@.take(i as int));
            assert(t.last() == state.notes@[i as int]);
            assert(out@ =~= notes_removed(t, a, id));
        }
        i = i + 1;
    }
    proof {
        assert(state.notes@.take(n as int) =~= state.notes@);
        lemma_notes_removed_props(state.notes@, a, id);
    }
    state.notes = out;
    Ok(())
}

} // verus!
