use std::collections::HashMap;

use uuid::Uuid;
use vaultnote_server::ask::{ask_vault, AskVaultRequest};
use vaultnote_server::create::{create_note, CreateNoteRequest, CreateStep};
use vaultnote_server::http::{health_handler, ready_handler};
use vaultnote_server::list::{list_notes, ListStep};
use vaultnote_server::note::{Note, NoteRow};
use vaultnote_server::search::{search_notes, SearchNotesRequest};
use vaultnote_server::status::{Code, Status};
use vaultnote_server::time::UtcDateTime;
use vaultnote_server::upload::{
    document_stored, Upload, UploadDocumentRequest, UploadDocumentResponse,
};

/// A service over a database and a cache in memory.
struct Service {
    rows: Vec<NoteRow>,
    documents: Vec<(u128, u128, String, Vec<u8>)>,
    cache: HashMap<String, String>,
    selects: usize,
}

impl Service {
    fn new() -> Service {
        Service { rows: vec![], documents: vec![], cache: HashMap::new(), selects: 0 }
    }

    /// The rows, the newest first.
    fn select(&mut self) -> Vec<NoteRow> {
        self.selects += 1;
        self.rows.iter().rev().cloned().collect()
    }

    fn insert(&mut self, title: String, content: String) -> NoteRow {
        let now = UtcDateTime::new(739_000, self.rows.len() as u32, 5).unwrap();
        let row = NoteRow {
            id: Uuid::new_v4().as_u128(),
            title,
            content,
            created_at: now,
            updated_at: now,
        };
        self.rows.push(row.clone());
        row
    }

    fn create_note(&mut self, title: String, content: String) -> Result<Option<Note>, Status> {
        let mut step = create_note(CreateNoteRequest { title, content });
        loop {
            step = match step {
                CreateStep::Insert { note, next, .. } => {
                    next.inserted(Ok(self.insert(note.title, note.content)))
                }
                CreateStep::Delete { key, next } => {
                    self.cache.remove(key);
                    next.deleted(Ok(()))
                }
                CreateStep::Reply(reply) => return reply.map(|response| response.note),
            }
        }
    }

    fn list_notes(&mut self) -> Result<Vec<Note>, Status> {
        let mut step = list_notes();
        loop {
            step = match step {
                ListStep::Read { key, next } => next.read(Ok(self.cache.get(key).cloned())),
                ListStep::Select { next, .. } => next.selected(Ok(self.select())),
                ListStep::Write { key, text, next } => {
                    self.cache.insert(key.to_string(), text);
                    next.written(Ok(()))
                }
                ListStep::Reply(reply) => return reply.map(|response| response.notes),
            }
        }
    }

    fn search_notes(&mut self, query: String) -> Result<Vec<Note>, Status> {
        search_notes(SearchNotesRequest { query }).next.selected(Ok(self.select()))
    }

    fn ask_vault(&mut self, question: String) -> Result<Vec<String>, Status> {
        ask_vault(AskVaultRequest { question }).next.selected(Ok(self.select()))
    }

    fn upload_document(
        &mut self,
        messages: Vec<UploadDocumentRequest>,
    ) -> Result<UploadDocumentResponse, Status> {
        let mut upload = Upload::new();
        for message in messages {
            upload.receive(message);
        }
        let document = upload.finish()?;
        let id = Uuid::new_v4().as_u128();
        self.documents.push((id, document.note_id, document.filename, document.content));
        document_stored(document.bytes_received, Ok(id))
    }
}

#[test]
fn create_note_rejects_blank_title() {
    let mut service = Service::new();

    let result = service.create_note("   ".to_string(), "content".to_string());

    let error = result.expect_err("expected invalid_argument for blank title");
    assert_eq!(error.code, Code::InvalidArgument);
    assert_eq!(error.message, "title is required");
    assert!(service.rows.is_empty());
}

#[test]
fn create_and_list_notes_round_trip() {
    let mut service = Service::new();

    let title = format!("test-note-{}", Uuid::new_v4());
    let content = format!("test-content-{}", Uuid::new_v4());

    let created = service
        .create_note(title.clone(), content.clone())
        .expect("create_note should succeed")
        .expect("create_note should return note");

    let listed = service.list_notes().expect("list_notes should succeed");

    let matched = listed
        .iter()
        .find(|note| note.id == created.id)
        .expect("created note should be present in list");

    assert_eq!(matched.title, title);
    assert_eq!(matched.content, content);
    assert!(matched.created_at.is_some());
    assert!(matched.updated_at.is_some());

    let created_id = Uuid::parse_str(&created.id).expect("created id should be a UUID");
    assert_eq!(created_id.as_u128(), service.rows[0].id);
}

#[test]
fn list_notes_served_from_cache_after_first_call() {
    let mut service = Service::new();

    let title = format!("cache-test-{}", Uuid::new_v4());

    let created = service
        .create_note(title.clone(), "cache content".to_string())
        .expect("create_note should succeed")
        .expect("should return note");

    // First call: populates cache.
    let first = service.list_notes().expect("first list_notes should succeed");
    assert_eq!(service.selects, 1);

    // The cache key was written.
    let cached = service.cache.get("notes:list");
    assert!(cached.is_some(), "notes:list cache key should exist after first list_notes call");

    // Second call: served from cache.
    let second = service.list_notes().expect("second list_notes should succeed");
    assert_eq!(service.selects, 1);

    assert_eq!(first.len(), second.len(), "cache should return same results");
    assert_eq!(first, second);

    let found = second.iter().any(|n| n.id == created.id);
    assert!(found, "cached list should include our note");

    // create_note invalidates the cache.
    let title2 = format!("cache-test-2-{}", Uuid::new_v4());
    let created2 = service
        .create_note(title2.clone(), "second note".to_string())
        .expect("second create_note should succeed")
        .expect("should return note");

    let after_invalidate = service.cache.get("notes:list");
    assert!(
        after_invalidate.is_none(),
        "notes:list cache key should be deleted after create_note"
    );

    for id in [&created.id, &created2.id] {
        Uuid::parse_str(id).expect("id should be UUID");
    }
    let third = service.list_notes().expect("third list_notes should succeed");
    assert_eq!(service.selects, 2);
    assert_eq!(third.len(), 2);
    assert_eq!(third[0].id, created2.id);
    assert_eq!(third[1].id, created.id);
}

#[test]
fn a_creation_adds_one_note_to_the_list() {
    let mut service = Service::new();
    service.create_note("first".to_string(), "a".to_string()).unwrap();
    service.create_note("second".to_string(), "b".to_string()).unwrap();
    let before = service.list_notes().unwrap();

    let created = service.create_note("third".to_string(), "c".to_string()).unwrap().unwrap();

    let after = service.list_notes().unwrap();
    assert_eq!(after.len(), before.len() + 1);
    assert!(after.contains(&created));
    assert!(before.iter().all(|note| after.contains(note)));
    let stamps: Vec<i64> = after.iter().map(|n| n.created_at.unwrap().seconds).collect();
    assert!(stamps.windows(2).all(|pair| pair[0] >= pair[1]));
}

#[test]
fn health_and_ready_endpoints_return_ok() {
    let health = health_handler();
    assert_eq!(health.status, 200);
    assert_eq!(health.body, "OK");

    let ready = ready_handler(Ok(()), Ok(()));
    assert_eq!(ready.status, 200);
    assert_eq!(ready.body, "READY");
}

#[test]
fn search_notes_streams_matching_notes() {
    let mut service = Service::new();

    let unique = Uuid::new_v4().to_string();
    let title = format!("search-target-{}", unique);

    let created = service
        .create_note(title.clone(), "some body".to_string())
        .expect("create_note should succeed")
        .expect("should return note");

    let notes = service.search_notes(unique.clone()).expect("search_notes should succeed");

    assert!(
        notes.iter().any(|n| n.id == created.id),
        "streamed results should contain the created note"
    );
}

#[test]
fn search_notes_returns_empty_stream_for_no_match() {
    let mut service = Service::new();
    service.create_note("a note".to_string(), "its content".to_string()).unwrap();

    let notes = service
        .search_notes(format!("NOMATCHWILLEVER_{}", Uuid::new_v4()))
        .expect("search_notes should succeed");

    assert_eq!(notes.len(), 0, "no notes should be returned for a non-matching query");
}

#[test]
fn upload_document_accumulates_chunks() {
    let mut service = Service::new();

    // Create a note to attach the document to.
    let note = service
        .create_note(format!("doc-owner-{}", Uuid::new_v4()), "owner note".to_string())
        .expect("create_note should succeed")
        .expect("should return note");

    let note_id = note.id.clone();

    let chunk1 = b"Hello, ".to_vec();
    let chunk2 = b"World!".to_vec();
    let expected_bytes = (chunk1.len() + chunk2.len()) as i64;

    let resp = service
        .upload_document(vec![
            UploadDocumentRequest {
                note_id: note_id.clone(),
                filename: "hello.txt".to_string(),
                chunk: chunk1,
            },
            UploadDocumentRequest {
                note_id: note_id.clone(),
                filename: String::new(), // subsequent chunks may omit metadata
                chunk: chunk2,
            },
        ])
        .expect("upload_document should succeed");

    assert!(!resp.document_id.is_empty(), "document_id should be set");
    assert_eq!(resp.bytes_received, expected_bytes);

    let doc_id = Uuid::parse_str(&resp.document_id).expect("document_id should be UUID");
    assert_eq!(
        service.documents,
        vec![(
            doc_id.as_u128(),
            Uuid::parse_str(&note_id).unwrap().as_u128(),
            "hello.txt".to_string(),
            b"Hello, World!".to_vec()
        )]
    );
}

#[test]
fn upload_document_rejects_invalid_note_id() {
    let mut service = Service::new();

    let err = service
        .upload_document(vec![UploadDocumentRequest {
            note_id: "not-a-uuid".to_string(),
            filename: "bad.txt".to_string(),
            chunk: b"data".to_vec(),
        }])
        .expect_err("should reject invalid note_id");

    assert_eq!(err.code, Code::InvalidArgument);
    assert!(service.documents.is_empty());
}

#[test]
fn ask_vault_streams_tokens_for_matching_notes() {
    let mut service = Service::new();

    let unique = Uuid::new_v4().to_string();
    service
        .create_note(format!("vault-note-{}", unique), "vault content".to_string())
        .expect("create_note should succeed")
        .expect("should return note");

    let tokens = service.ask_vault(unique.clone()).expect("ask_vault should succeed");

    assert!(!tokens.is_empty(), "should receive at least one token");
    let full_answer = tokens.join("");
    assert!(
        full_answer.contains("1") || full_answer.contains("Found"),
        "answer should mention found notes: {full_answer}"
    );
    assert_eq!(full_answer, "Found 1 relevant note.");
}

#[test]
fn ask_vault_responds_when_no_notes_match() {
    let mut service = Service::new();

    let tokens = service
        .ask_vault(format!("NOMATCHWILLEVER_{}", Uuid::new_v4()))
        .expect("ask_vault should succeed");

    assert!(!tokens.is_empty(), "should receive at least one token");
    let full_answer = tokens.join("");
    assert!(
        full_answer.contains("No relevant"),
        "answer should say no notes found: {full_answer}"
    );
}
