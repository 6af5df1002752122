use chrono::{DateTime, Datelike, NaiveDate, Timelike, Utc};
use uuid::Uuid;
use vaultnote_server::ask::{answer, ask_vault, AskVaultRequest};
use vaultnote_server::cache::{decode_notes, encode_notes, CacheError, NOTES_LIST_KEY};
use vaultnote_server::config::{
    addresses, settings, SettingsError, Variables, DB_CONNECT_FAILURE, DB_MAX_CONNECTIONS,
};
use vaultnote_server::create::{
    create_note, AwaitRow, CreateNoteRequest, CreateStep, NewNote, INSERT_NOTE,
};
use vaultnote_server::http::{health_handler, ready_handler, DB_PROBE, HEALTH_PATH, READY_PATH};
use vaultnote_server::list::{list_notes, AwaitCached, AwaitRows, ListStep, SELECT_NOTES};
use vaultnote_server::note::{map_note, map_notes, Note, NoteRow};
use vaultnote_server::ping::ping;
use vaultnote_server::search::{search_notes, SearchNotesRequest};
use vaultnote_server::server::{run_result, RunEnd};
use vaultnote_server::status::{map_db_error, Code, DbError, Status};
use vaultnote_server::text::{contains_text, cut_at_spaces, decimal, trim, white_space};
use vaultnote_server::time::{
    to_timestamp, Timestamp, UtcDateTime, FIRST_DAY, LAST_DAY, UNIX_EPOCH_DAY,
};
use vaultnote_server::upload::{
    document_stored, Upload, UploadDocumentRequest, INSERT_DOCUMENT,
};

fn instant(value: DateTime<Utc>) -> UtcDateTime {
    let naive = value.naive_utc();
    UtcDateTime::new(
        naive.date().num_days_from_ce(),
        naive.time().num_seconds_from_midnight(),
        naive.time().nanosecond(),
    )
    .unwrap()
}

fn at(seconds: i64, nanos: u32) -> UtcDateTime {
    instant(DateTime::from_timestamp(seconds, nanos).unwrap())
}

fn row(id: u128, title: &str, content: &str, seconds: i64) -> NoteRow {
    NoteRow {
        id,
        title: title.to_string(),
        content: content.to_string(),
        created_at: at(seconds, 0),
        updated_at: at(seconds + 1, 7),
    }
}

fn db_error() -> DbError {
    DbError { description: "connection reset by 10.0.0.1".to_string() }
}

fn cache_error() -> CacheError {
    CacheError { description: "refused".to_string() }
}

fn request(title: &str, content: &str) -> CreateNoteRequest {
    CreateNoteRequest { title: title.to_string(), content: content.to_string() }
}

fn to_insert(step: CreateStep) -> (NewNote, AwaitRow) {
    match step {
        CreateStep::Insert { statement, note, next } => {
            assert_eq!(statement, INSERT_NOTE);
            (note, next)
        }
        _ => panic!("expected an insertion"),
    }
}

fn create_reply(step: CreateStep) -> Result<Option<Note>, Status> {
    match step {
        CreateStep::Reply(reply) => reply.map(|response| response.note),
        _ => panic!("expected a reply"),
    }
}

fn to_read() -> AwaitCached {
    match list_notes() {
        ListStep::Read { key, next } => {
            assert_eq!(key, NOTES_LIST_KEY);
            next
        }
        _ => panic!("expected a read of the cache"),
    }
}

fn to_select(step: ListStep) -> AwaitRows {
    match step {
        ListStep::Select { statement, next } => {
            assert_eq!(statement, SELECT_NOTES);
            next
        }
        _ => panic!("expected a selection"),
    }
}

fn list_reply(step: ListStep) -> Result<Vec<Note>, Status> {
    match step {
        ListStep::Reply(reply) => reply.map(|response| response.notes),
        _ => panic!("expected a reply"),
    }
}

#[test]
fn ping_answers_pong() {
    assert_eq!(ping().message, "pong");
}

#[test]
fn white_space_is_the_unicode_property() {
    for code in 0..=0x10FFFFu32 {
        if let Some(c) = char::from_u32(code) {
            assert_eq!(white_space(c), c.is_whitespace(), "{code:x}");
        }
    }
}

#[test]
fn trim_takes_white_space_off_both_ends() {
    for s in ["", "   ", "a", " a ", "\t\u{3000}a b\u{a0}\n", "\u{200b}x ", " \u{e9}\u{85}"] {
        assert_eq!(trim(s), s.trim());
        assert_eq!(trim(&trim(s)), s.trim());
    }
}

#[test]
fn substrings_are_found() {
    assert!(contains_text("abcabd", "abd"));
    assert!(contains_text("abc", ""));
    assert!(contains_text("", ""));
    assert!(contains_text("na\u{ef}ve", "\u{ef}v"));
    assert!(!contains_text("abc", "ac"));
    assert!(!contains_text("abc", "abcd"));
    assert!(!contains_text("Abc", "abc"));
}

#[test]
fn decimal_numerals() {
    for n in [0u64, 1, 9, 10, 11, 99, 100, 12345, u64::MAX] {
        assert_eq!(decimal(n), n.to_string());
    }
}

#[test]
fn words_are_cut_behind_spaces() {
    assert_eq!(cut_at_spaces("one two  three"), vec!["one ", "two ", " ", "three"]);
    assert_eq!(cut_at_spaces("end "), vec!["end "]);
    assert!(cut_at_spaces("").is_empty());
}

#[test]
fn the_calendar_has_the_limits_of_chrono() {
    assert_eq!(NaiveDate::MIN.num_days_from_ce(), FIRST_DAY);
    assert_eq!(NaiveDate::MAX.num_days_from_ce(), LAST_DAY);
    assert_eq!(DateTime::<Utc>::UNIX_EPOCH.num_days_from_ce(), UNIX_EPOCH_DAY);
    assert!(UtcDateTime::new(FIRST_DAY - 1, 0, 0).is_none());
    assert!(UtcDateTime::new(LAST_DAY + 1, 0, 0).is_none());
    assert!(UtcDateTime::new(1, 86_400, 0).is_none());
    assert!(UtcDateTime::new(1, 0, 2_000_000_000).is_none());
}

#[test]
fn timestamps_are_those_of_chrono() {
    for value in [
        DateTime::<Utc>::MIN_UTC,
        DateTime::<Utc>::MAX_UTC,
        DateTime::<Utc>::UNIX_EPOCH,
        DateTime::from_timestamp(-1, 999_999_999).unwrap(),
        DateTime::from_timestamp(1_431_648_000, 123).unwrap(),
        DateTime::from_timestamp(1_483_228_799, 1_500_000_000).unwrap(),
        DateTime::from_timestamp(5, 0).unwrap().with_nanosecond(1_999_999_999).unwrap(),
    ] {
        let timestamp = to_timestamp(instant(value));
        assert_eq!(timestamp.seconds, value.timestamp());
        assert_eq!(timestamp.nanos, value.timestamp_subsec_nanos() as i32);
    }
    assert_eq!(
        to_timestamp(UtcDateTime::new(719_164, 2, 3).unwrap()),
        Timestamp { seconds: 86_402, nanos: 3 }
    );
}

#[test]
fn later_instants_have_later_timestamps() {
    let instants = [at(-86_401, 5), at(-1, 0), at(-1, 1), at(0, 0), at(86_400, 0)];
    let stamps: Vec<(i64, i32)> =
        instants.iter().map(|i| to_timestamp(*i)).map(|t| (t.seconds, t.nanos)).collect();
    for pair in stamps.windows(2) {
        assert!(pair[0] < pair[1]);
    }
}

#[test]
fn a_row_becomes_a_note() {
    let note = map_note(row(0xa1a2a3a4_b1b2_c1c2_d1d2_d3d4d5d6d7d8, "t", "c", 60));
    assert_eq!(
        note,
        Note {
            id: "a1a2a3a4-b1b2-c1c2-d1d2-d3d4d5d6d7d8".to_string(),
            title: "t".to_string(),
            content: "c".to_string(),
            created_at: Some(Timestamp { seconds: 60, nanos: 0 }),
            updated_at: Some(Timestamp { seconds: 61, nanos: 7 }),
        }
    );
    assert_eq!(note.clone(), note);
}

#[test]
fn titles_are_trimmed_and_contents_are_not() {
    let (new, _) = to_insert(create_note(request("\u{2003} My title\t\n", "  kept  ")));
    assert_eq!(new.title, "My title");
    assert_eq!(new.content, "  kept  ");
}

#[test]
fn titles_of_any_white_space_are_refused() {
    for title in ["", " ", "\t\r\n", "\u{3000}\u{a0}"] {
        let refusal = create_reply(create_note(request(title, "content"))).unwrap_err();
        assert_eq!(refusal.code, Code::InvalidArgument);
        assert_eq!(refusal.message, "title is required");
    }
}

#[test]
fn database_errors_are_not_told_to_clients() {
    let failure = map_db_error(db_error());
    assert_eq!(failure.code, Code::Internal);
    assert_eq!(failure.message, "database operation failed");
    let (_, next) = to_insert(create_note(request("t", "c")));
    assert_eq!(create_reply(next.inserted(Err(db_error()))).unwrap_err(), failure);
    let next = to_select(to_read().read(Ok(None)));
    assert_eq!(list_reply(next.selected(Err(db_error()))).unwrap_err(), failure);
    assert_eq!(document_stored(3, Err(db_error())).unwrap_err(), failure);
    let search = SearchNotesRequest { query: "q".to_string() };
    assert_eq!(search_notes(search).next.selected(Err(db_error())).unwrap_err(), failure);
    let ask = AskVaultRequest { question: "q".to_string() };
    assert_eq!(ask_vault(ask).next.selected(Err(db_error())).unwrap_err(), failure);
}

#[test]
fn a_created_note_makes_the_cached_list_stale() {
    for deleted in [Ok(()), Err(cache_error())] {
        let (_, next) = to_insert(create_note(request("t", "c")));
        let next = match next.inserted(Ok(row(7, "t", "c", 0))) {
            CreateStep::Delete { key, next } => {
                assert_eq!(key, "notes:list");
                next
            }
            _ => panic!("expected a deletion"),
        };
        let reply = create_reply(next.deleted(deleted)).unwrap();
        assert_eq!(reply, Some(map_note(row(7, "t", "c", 0))));
    }
}

#[test]
fn cached_lists_are_read_back() {
    let bare = Note {
        id: String::new(),
        title: "\u{1F600} 0000000000000001".to_string(),
        content: "n".to_string(),
        created_at: None,
        updated_at: Some(Timestamp { seconds: i64::MIN, nanos: i32::MAX }),
    };
    let other = map_note(row(u128::MAX, "t", "line\nline", -5));
    for notes in [vec![], vec![bare.clone()], vec![bare, other.clone(), other]] {
        let text = encode_notes(&notes);
        assert_eq!(decode_notes(&text), Some(notes));
    }
}

#[test]
fn the_text_of_a_note() {
    let note = Note {
        id: "id".to_string(),
        title: "\u{e9}".to_string(),
        content: String::new(),
        created_at: None,
        updated_at: Some(Timestamp { seconds: -1, nanos: 10 }),
    };
    assert_eq!(
        encode_notes(&vec![note]),
        "0000000000000002id0000000000000001\u{e9}0000000000000000nt7fffffffffffffff8000000a"
    );
}

#[test]
fn texts_of_no_list_are_not_read() {
    let text = encode_notes(&vec![map_note(row(1, "t", "c", 0))]);
    for bad in [
        "x".to_string(),
        "[]".to_string(),
        text[..text.len() - 1].to_string(),
        format!("{text}0"),
        text.to_uppercase(),
        text.replacen("t8", "n8", 1),
        "ffffffffffffffff".to_string(),
    ] {
        assert_eq!(decode_notes(&bad), None, "{bad}");
    }
}

#[test]
fn lists_come_from_the_cache_only_where_it_holds_one() {
    let notes = map_notes(vec![row(2, "b", "", 9), row(1, "a", "", 5)]);
    let hit = to_read().read(Ok(Some(encode_notes(&notes))));
    assert_eq!(list_reply(hit).unwrap(), notes);
    assert_eq!(list_reply(to_read().read(Ok(Some(String::new())))).unwrap(), vec![]);
    to_select(to_read().read(Ok(None)));
    to_select(to_read().read(Err(cache_error())));
    to_select(to_read().read(Ok(Some("not a list".to_string()))));
}

#[test]
fn lists_from_the_database_are_cached() {
    for written in [Ok(()), Err(cache_error())] {
        let rows = vec![row(2, "b", "", 9), row(1, "a", "", 5)];
        let next = to_select(to_read().read(Ok(None)));
        let next = match next.selected(Ok(rows.clone())) {
            ListStep::Write { key, text, next } => {
                assert_eq!(key, "notes:list");
                assert_eq!(decode_notes(&text), Some(map_notes(rows.clone())));
                next
            }
            _ => panic!("expected a write to the cache"),
        };
        assert_eq!(list_reply(next.written(written)).unwrap(), map_notes(rows));
    }
}

#[test]
fn notes_come_newest_first() {
    let rows = vec![row(3, "c", "", 30), row(2, "b", "", 20), row(1, "a", "", 20)];
    let stamps: Vec<i64> =
        map_notes(rows).iter().map(|n| n.created_at.unwrap().seconds).collect();
    assert_eq!(stamps, vec![30, 20, 20]);
}

#[test]
fn searches_look_at_titles_and_contents() {
    let rows = vec![
        row(1, "apple pie", "flour", 4),
        row(2, "bread", "flour, water", 3),
        row(3, "water", "", 2),
    ];
    let found = |query: &str| -> Vec<String> {
        let step = search_notes(SearchNotesRequest { query: query.to_string() });
        assert_eq!(step.statement, SELECT_NOTES);
        step.next
            .selected(Ok(rows.clone()))
            .unwrap()
            .into_iter()
            .map(|n| n.title)
            .collect()
    };
    assert_eq!(found("flour"), vec!["apple pie", "bread"]);
    assert_eq!(found("water"), vec!["bread", "water"]);
    assert_eq!(found(""), vec!["apple pie", "bread", "water"]);
    assert!(found("pear").is_empty());
}

#[test]
fn answers_count_the_matching_notes() {
    assert_eq!(answer(0), "No relevant notes found.");
    assert_eq!(answer(1), "Found 1 relevant note.");
    assert_eq!(answer(12), "Found 12 relevant notes.");
    let rows = vec![row(1, "flour", "", 4), row(2, "bread", "flour", 3)];
    let step = ask_vault(AskVaultRequest { question: "flour".to_string() });
    assert_eq!(step.statement, SELECT_NOTES);
    assert_eq!(
        step.next.selected(Ok(rows)).unwrap(),
        vec!["Found ", "2 ", "relevant ", "notes."]
    );
}

fn message(note_id: &str, filename: &str, chunk: &[u8]) -> UploadDocumentRequest {
    UploadDocumentRequest {
        note_id: note_id.to_string(),
        filename: filename.to_string(),
        chunk: chunk.to_vec(),
    }
}

#[test]
fn uploads_take_each_form_of_a_uuid() {
    let id = Uuid::from_u128(0x0123_4567_89ab_cdef_fedc_ba98_7654_3210);
    for text in [
        id.simple().to_string(),
        id.hyphenated().to_string(),
        id.braced().to_string(),
        id.urn().to_string(),
        id.to_string().to_uppercase(),
        id.urn().to_string().to_uppercase(),
    ] {
        let mut upload = Upload::new();
        upload.receive(message(&text, "f", b""));
        assert_eq!(upload.finish().unwrap().note_id, id.as_u128(), "{text}");
    }
}

#[test]
fn uploads_without_a_uuid_are_refused() {
    let id = Uuid::from_u128(5);
    for text in [
        "".to_string(),
        " ".to_string(),
        format!("{{{}", id.hyphenated()),
        format!("{{{}}}", id.simple()),
        format!("urn:{}", id.hyphenated()),
        id.hyphenated().to_string().replace('5', "g"),
        id.hyphenated().to_string().replace('-', "_"),
    ] {
        let mut upload = Upload::new();
        upload.receive(message(&text, "f", b"x"));
        let refusal = upload.finish().unwrap_err();
        assert_eq!(refusal.code, Code::InvalidArgument);
        assert_eq!(refusal.message, "note_id must be a UUID");
    }
    assert_eq!(Upload::new().finish().unwrap_err().code, Code::InvalidArgument);
}

#[test]
fn the_first_message_names_the_document() {
    let mut upload = Upload::new();
    upload.receive(message("00000000-0000-0000-0000-00000000000a", "a.txt", b"1"));
    upload.receive(message("00000000-0000-0000-0000-00000000000b", "b.txt", b"23"));
    upload.receive(message("", "", b""));
    assert_eq!(upload.bytes_received(), 3);
    let document = upload.finish().unwrap();
    assert_eq!(document.statement, INSERT_DOCUMENT);
    assert_eq!(document.note_id, 10);
    assert_eq!(document.filename, "a.txt");
    assert_eq!(document.content, b"123".to_vec());
    assert_eq!(document.bytes_received, 3);
    let response = document_stored(document.bytes_received, Ok(11)).unwrap();
    assert_eq!(response.document_id, "00000000-0000-0000-0000-00000000000b");
    assert_eq!(response.bytes_received, 3);
}

#[test]
fn the_service_is_ready_when_both_probes_succeed() {
    assert_eq!((HEALTH_PATH, READY_PATH, DB_PROBE), ("/health", "/ready", "SELECT 1"));
    assert_eq!(health_handler().status, 200);
    for reply in [
        ready_handler(Err(db_error()), Ok(())),
        ready_handler(Ok(()), Err(cache_error())),
        ready_handler(Err(db_error()), Err(cache_error())),
    ] {
        assert_eq!(reply.status, 503);
        assert_eq!(reply.body, "NOT_READY");
    }
}

#[test]
fn the_statements_name_the_columns_of_a_row() {
    assert!(INSERT_NOTE.ends_with("RETURNING id, title, content, created_at, updated_at"));
    assert!(SELECT_NOTES.ends_with("ORDER BY created_at DESC"));
}

fn no_variables() -> Variables {
    Variables {
        database_url: None,
        redis_url: None,
        grpc_addr: None,
        http_addr: None,
        jwt_secret: None,
    }
}

#[test]
fn settings_have_defaults() {
    let made = settings(Variables {
        database_url: Some("postgres://db".to_string()),
        ..no_variables()
    })
    .ok()
    .unwrap();
    assert_eq!(made.database_url, "postgres://db");
    assert_eq!(made.redis_url, "redis://127.0.0.1:6379");
    assert_eq!(made.grpc_addr, "127.0.0.1:50051");
    assert_eq!(made.http_addr, "127.0.0.1:8080");
    assert_eq!(made.jwt_secret, "change-me-in-production");
}

#[test]
fn settings_follow_the_variables() {
    let made = settings(Variables {
        database_url: Some("a".to_string()),
        redis_url: Some("b".to_string()),
        grpc_addr: Some("c".to_string()),
        http_addr: Some("".to_string()),
        jwt_secret: Some("e".to_string()),
    })
    .ok()
    .unwrap();
    assert_eq!(made.redis_url, "b");
    assert_eq!(made.grpc_addr, "c");
    assert_eq!(made.http_addr, "");
    assert_eq!(made.jwt_secret, "e");
}

#[test]
fn wrong_settings_are_told() {
    let error = settings(no_variables()).err().unwrap();
    assert_eq!(error, SettingsError::NoDatabaseUrl);
    assert_eq!(error.message(), "DATABASE_URL must be set");
    let both: Result<(i32, i32), (SettingsError, &str)> = addresses(Ok(1), Ok(2));
    assert_eq!(both, Ok((1, 2)));
    assert_eq!(addresses(Err("g"), Ok(2)), Err((SettingsError::InvalidGrpcAddr, "g")));
    assert_eq!(
        addresses::<i32, &str>(Err("g"), Err("h")),
        Err((SettingsError::InvalidGrpcAddr, "g"))
    );
    assert_eq!(addresses(Ok(1), Err("h")), Err((SettingsError::InvalidHttpAddr, "h")));
    assert_eq!(SettingsError::InvalidGrpcAddr.message(), "invalid GRPC_ADDR");
    assert_eq!(SettingsError::InvalidHttpAddr.message(), "invalid HTTP_ADDR");
    assert_eq!(DB_MAX_CONNECTIONS, 8);
    assert_eq!(DB_CONNECT_FAILURE, "failed to connect to postgres");
}

#[test]
fn a_run_ends_as_the_first_server_does() {
    assert_eq!(run_result(RunEnd::BindFailed("in use")), Err("in use"));
    assert_eq!(run_result::<&str>(RunEnd::GrpcEnded(Ok(()))), Ok(()));
    assert_eq!(run_result(RunEnd::GrpcEnded(Err("grpc"))), Err("grpc"));
    assert_eq!(run_result::<&str>(RunEnd::HttpEnded(Ok(()))), Ok(()));
    assert_eq!(run_result(RunEnd::HttpEnded(Err("http"))), Err("http"));
}
