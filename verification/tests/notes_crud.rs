use notes_b::auth::verify_api_key;
use notes_b::errors::ErrorKind;
use notes_b::keys::generate_api_key;
use notes_b::model::AuthContext;
use notes_b::model::NoteRequest;
use notes_b::model::ServiceState;
use notes_b::model::UpdateNoteRequest;
use notes_b::notes::delete_note;
use notes_b::notes::get_all_notes;
use notes_b::notes::get_note;
use notes_b::notes::post_note;
use notes_b::notes::update_note;

fn authed(state: &mut ServiceState, name: &str, email: &str) -> AuthContext {
    let resp = generate_api_key(
        state,
        Some(name.to_string()),
        Some(vec!["read".to_string()]),
        Some(email.to_string()),
    )
    .expect("issuance should succeed");
    verify_api_key(state, Some(&resp.api_key)).expect("credential must authenticate")
}

fn req(title: &str, description: &str) -> NoteRequest {
    NoteRequest { title: title.to_string(), description: description.to_string() }
}

#[test]
fn posted_note_reads_back_identically() {
    let mut state = ServiceState::new();
    let ctx = authed(&mut state, "ci", "a@x.com");
    let note = post_note(&mut state, &ctx, &req("t", "d")).expect("creation should succeed");
    assert!(!note.id.is_empty());
    assert_eq!(note.account_id, ctx.account_id);
    let back = get_note(&state, &ctx, &note.id).expect("the note exists");
    assert_eq!(back.title, "t");
    assert_eq!(back.description, "d");
    assert_eq!(back.id, note.id);
    assert_eq!(back.created_at, note.created_at);
}

#[test]
fn listing_never_crosses_accounts() {
    let mut state = ServiceState::new();
    let ctx_a = authed(&mut state, "a-key", "a@x.com");
    let ctx_b = authed(&mut state, "b-key", "b@x.com");
    let a1 = post_note(&mut state, &ctx_a, &req("a-first", "1")).unwrap();
    let b1 = post_note(&mut state, &ctx_b, &req("b-first", "2")).unwrap();
    let a2 = post_note(&mut state, &ctx_a, &req("a-second", "3")).unwrap();
    let listed_a = get_all_notes(&state, &ctx_a);
    assert_eq!(listed_a.len(), 2);
    assert_eq!(listed_a[0].id, a1.id);
    assert_eq!(listed_a[1].id, a2.id);
    assert!(listed_a.iter().all(|n| n.account_id == ctx_a.account_id));
    assert!(listed_a.iter().all(|n| n.id != b1.id));
    let listed_b = get_all_notes(&state, &ctx_b);
    assert_eq!(listed_b.len(), 1);
    assert_eq!(listed_b[0].id, b1.id);
}

#[test]
fn foreign_note_is_not_found() {
    let mut state = ServiceState::new();
    let ctx_a = authed(&mut state, "a-key", "a@x.com");
    let ctx_b = authed(&mut state, "b-key", "b@x.com");
    let a1 = post_note(&mut state, &ctx_a, &req("mine", "1")).unwrap();
    let e = get_note(&state, &ctx_b, &a1.id).err().unwrap();
    assert_eq!(e.kind, ErrorKind::NotFound);
}

#[test]
fn missing_note_is_not_found() {
    let mut state = ServiceState::new();
    let ctx = authed(&mut state, "ci", "a@x.com");
    let e = get_note(&state, &ctx, &"nope".to_string()).err().unwrap();
    assert_eq!(e.kind, ErrorKind::NotFound);
}

#[test]
fn update_with_nothing_is_invalid() {
    let mut state = ServiceState::new();
    let ctx = authed(&mut state, "ci", "a@x.com");
    let note = post_note(&mut state, &ctx, &req("t", "d")).unwrap();
    let r = update_note(
        &mut state,
        &ctx,
        &note.id,
        &UpdateNoteRequest { title: None, description: None },
    );
    assert_eq!(r.err().unwrap().kind, ErrorKind::Validation);
    let back = get_note(&state, &ctx, &note.id).unwrap();
    assert_eq!(back.title, "t");
    assert_eq!(back.description, "d");
}

#[test]
fn update_title_only_keeps_description() {
    let mut state = ServiceState::new();
    let ctx = authed(&mut state, "ci", "a@x.com");
    let note = post_note(&mut state, &ctx, &req("t", "d")).unwrap();
    let updated = update_note(
        &mut state,
        &ctx,
        &note.id,
        &UpdateNoteRequest { title: Some("t2".to_string()), description: None },
    )
    .expect("update should succeed");
    assert_eq!(updated.title, "t2");
    assert_eq!(updated.description, "d");
    let back = get_note(&state, &ctx, &note.id).unwrap();
    assert_eq!(back.title, "t2");
    assert_eq!(back.description, "d");
}

#[test]
fn update_of_missing_note_is_not_found() {
    let mut state = ServiceState::new();
    let ctx = authed(&mut state, "ci", "a@x.com");
    let r = update_note(
        &mut state,
        &ctx,
        &"nope".to_string(),
        &UpdateNoteRequest { title: Some("t2".to_string()), description: None },
    );
    assert_eq!(r.err().unwrap().kind, ErrorKind::NotFound);
}

#[test]
fn delete_of_missing_note_still_succeeds() {
    let mut state = ServiceState::new();
    let ctx = authed(&mut state, "ci", "a@x.com");
    let r = delete_note(&mut state, &ctx, &"nope".to_string());
    assert!(r.is_ok());
}

#[test]
fn delete_removes_only_the_named_note() {
    let mut state = ServiceState::new();
    let ctx = authed(&mut state, "ci", "a@x.com");
    let first = post_note(&mut state, &ctx, &req("one", "1")).unwrap();
    let second = post_note(&mut state, &ctx, &req("two", "2")).unwrap();
    delete_note(&mut state, &ctx, &first.id).unwrap();
    let listed = get_all_notes(&state, &ctx);
    assert_eq!(listed.len(), 1);
    assert_eq!(listed[0].id, second.id);
    assert_eq!(get_note(&state, &ctx, &first.id).err().unwrap().kind, ErrorKind::NotFound);
}

#[test]
fn delete_is_scoped_to_the_caller() {
    let mut state = ServiceState::new();
    let ctx_a = authed(&mut state, "a-key", "a@x.com");
    let ctx_b = authed(&mut state, "b-key", "b@x.com");
    let a1 = post_note(&mut state, &ctx_a, &req("mine", "1")).unwrap();
    delete_note(&mut state, &ctx_b, &a1.id).unwrap();
    assert!(get_note(&state, &ctx_a, &a1.id).is_ok());
}
