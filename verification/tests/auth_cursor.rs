use bedcode_mobile::server::{FileServiceServer, StartPlan};
use bedcode_mobile::auth::{constant_time_eq, BearerTokenGuard};
use bedcode_mobile::cursor::{Cursor, CursorError, CursorStore, FileFingerprint, StoredCursor};

#[test]
fn test_generate_verify_revoke_lifecycle() {
    let mut guard = BearerTokenGuard::new();
    assert!(!guard.is_active());
    assert!(!guard.verify("anything"));

    let token = guard.generate();
    assert!(guard.is_active());
    assert!(guard.verify(&token));
    assert!(!guard.verify("wrong-token"));
    assert!(!guard.verify(""));

    guard.revoke();
    assert!(!guard.is_active());
    assert!(!guard.verify(&token));
}

#[test]
fn test_generate_produces_distinct_tokens() {
    let mut guard = BearerTokenGuard::new();
    let t1 = guard.generate();
    let t2 = guard.generate();
    assert_ne!(t1, t2);
    assert_eq!(t1.len(), 43);
    assert!(!guard.verify(&t1));
    assert!(guard.verify(&t2));
}

#[test]
fn test_constant_time_eq() {
    assert!(constant_time_eq(b"abc", b"abc"));
    assert!(!constant_time_eq(b"abc", b"abd"));
    assert!(!constant_time_eq(b"abc", b"ab"));
    assert!(constant_time_eq(b"", b""));
}

#[test]
fn test_debug_is_redacted() {
    let mut guard = BearerTokenGuard::new();
    let token = guard.generate();
    let debug = guard.debug_repr();
    assert!(!debug.contains(&token), "Debug output must not leak token");
}

#[test]
fn generated_token_is_url_safe_base64() {
    let mut guard = BearerTokenGuard::new();
    let t = guard.generate();
    assert!(t.chars().all(|c| c.is_ascii_alphanumeric() || c == '-' || c == '_'));
    assert_eq!(guard.current_for_announce(), Some(t.clone()));
    guard.revoke();
    assert_eq!(guard.current_for_announce(), None);
    assert_eq!(guard.debug_repr(), "BearerTokenGuard { active: false }");
}

#[test]
fn advance_increments_positively() {
    let mut c = Cursor::new(100);
    assert_eq!(c.position, 0);
    assert_eq!(c.advance(10).unwrap(), 10);
    assert_eq!(c.advance(25).unwrap(), 35);
    assert_eq!(c.position, 35);
}

#[test]
fn advance_rejects_overrun() {
    let mut c = Cursor::new(100);
    c.advance(90).unwrap();
    let err = c.advance(20).unwrap_err();
    assert_eq!(err, CursorError::Overrun { position: 110, total: 100 });
    assert_eq!(c.position, 90);
}

#[test]
fn advance_with_unknown_total_allows_unbounded() {
    let mut c = Cursor::new(0);
    c.advance(64 * 1024).unwrap();
    assert_eq!(c.position, 64 * 1024);
}

#[test]
fn restore_rejects_stale_cursor() {
    assert!(Cursor::restore(150, 100).is_err());
    assert_eq!(
        Cursor::restore(150, 100).unwrap_err(),
        CursorError::Overrun { position: 150, total: 100 }
    );
    assert_eq!(Cursor::restore(100, 100).unwrap().position, 100);
    assert_eq!(Cursor::restore(999, 0).unwrap().position, 999);
}

#[test]
fn rollback_moves_back_target() {
    let mut c = Cursor::new(100);
    c.advance(50).unwrap();
    c.rollback(30).unwrap();
    assert_eq!(c.position, 30);
}

#[test]
fn rollback_forward_rejected() {
    let mut c = Cursor::new(100);
    c.advance(30).unwrap();
    assert_eq!(c.rollback(40).unwrap_err(), CursorError::InvalidRollback { from: 30, to: 40 });
    assert_eq!(c.position, 30);
}

#[test]
fn effective_offset_clamps_to_total() {
    let c = Cursor { position: 120, total: 100 };
    assert_eq!(c.effective_offset(), 100);
    assert!(c.is_complete());
    let c2 = Cursor::new(100);
    assert_eq!(c2.effective_offset(), 0);
    assert!(!c2.is_complete());
}

#[test]
fn store_isolates_per_key_and_persists_fingerprint() {
    let mut store = CursorStore::new();
    let fp_a = FileFingerprint { size: 10, mtime: 100 };
    let fp_b = FileFingerprint { size: 20, mtime: 200 };
    store.upsert("t1", StoredCursor { position: 10, fingerprint: Some(fp_a) });
    store.upsert("t2", StoredCursor { position: 99, fingerprint: Some(fp_b) });
    assert_eq!(store.get("t1").unwrap().position, 10);
    assert_eq!(store.get("t1").unwrap().fingerprint, Some(fp_a));
    assert_eq!(store.get("t2").unwrap().position, 99);
    assert_eq!(store.len(), 2);

    store.advance("t1", 5);
    assert_eq!(store.get("t1").unwrap().position, 15);
    assert_eq!(store.get("t2").unwrap().position, 99);

    store.remove("t1");
    assert!(store.get("t1").is_none());
    assert_eq!(store.len(), 1);
}

#[test]
fn store_advance_on_missing_key_is_noop_and_saturates() {
    let mut store = CursorStore::new();
    assert!(store.is_empty());
    assert_eq!(store.advance("x", 7), 0);
    assert!(store.is_empty());
    store.upsert("y", StoredCursor { position: u64::MAX - 1, fingerprint: None });
    assert_eq!(store.advance("y", 10), u64::MAX);
}

#[test]
fn authorize_requires_bearer_with_current_token() {
    let mut g = BearerTokenGuard::new();
    assert!(!g.authorize(None));
    let t = g.generate();
    assert!(g.authorize(Some(&format!("Bearer {}", t))));
    assert!(!g.authorize(Some(&format!("bearer {}", t))));
    assert!(!g.authorize(Some(&t)));
    assert!(!g.authorize(Some("Bearer wrong-token")));
    assert!(!g.authorize(Some("Bearer ")));
    g.revoke();
    assert!(!g.authorize(Some(&format!("Bearer {}", t))));
    assert_eq!(bedcode_mobile::auth::UNAUTHORIZED_MESSAGE, "unauthorized: valid Bearer token required");
}

#[test]
fn file_service_lifecycle_token_lives_from_start_to_stop() {
    let mut s = FileServiceServer::new();
    assert!(!s.is_running());
    assert_eq!(s.port(), None);
    assert!(!s.token_guard().is_active());
    assert_eq!(s.start_plan(), StartPlan::Bind);
    assert!(s.token_guard().is_active());
    let token = s.token_guard().current_for_announce().unwrap();
    assert_eq!(token.len(), 43);
    s.started(45123);
    assert!(s.is_running());
    assert_eq!(s.port(), Some(45123));
    assert_eq!(s.start_plan(), StartPlan::AlreadyRunning(45123));
    assert_eq!(s.token_guard().current_for_announce().unwrap(), token);
    assert!(s.token_guard().authorize(Some(&format!("Bearer {}", token))));
    assert_eq!(s.stop(), Some(45123));
    assert!(!s.is_running());
    assert!(!s.token_guard().authorize(Some(&format!("Bearer {}", token))));
    assert_eq!(s.stop(), None);
    assert_eq!(s.start_plan(), StartPlan::Bind);
    let fresh = s.token_guard().current_for_announce().unwrap();
    assert_ne!(fresh, token);
}
