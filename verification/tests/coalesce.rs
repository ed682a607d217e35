use hermito::coalesce::{
    ProjectFileCoalesceState, SaveCoalesceState, SaveRequestData, SyntaxCoalesceState,
};
use hermito::document::{DocumentId, DocumentRevision, WorkspaceEpoch};

fn fresh_id() -> DocumentId {
    DocumentId::new()
}

#[test]
fn test_coalesce_at_most_one_job_and_rapid_edits() {
    let mut st = SyntaxCoalesceState::default();
    let id = fresh_id();
    let r1 = DocumentRevision(1);
    let r2 = DocumentRevision(2);
    assert!(st.should_spawn_for(id, r1, false));
    st.on_dispatch(id, r1);
    assert!(st.has_in_flight());
    assert!(!st.should_spawn_for(id, r2, false));
    assert_eq!(st.in_flight, Some((id, r1)));
    assert!(st.on_result(id, r1));
    assert!(!st.has_in_flight());
    assert!(st.should_spawn_for(id, r2, false));
}

#[test]
fn test_coalesce_stale_result_does_not_wedge_or_leak_marker() {
    let mut st = SyntaxCoalesceState::default();
    let id = fresh_id();
    let r5 = DocumentRevision(5);
    let r6 = DocumentRevision(6);
    st.on_dispatch(id, r5);
    st.on_dispatch(id, r6);
    assert!(!st.on_result(id, r5));
    assert!(st.has_in_flight());
    assert_eq!(st.in_flight, Some((id, r6)));
    assert!(st.on_result(id, r6));
    assert!(!st.has_in_flight());
}

#[test]
fn test_coalesce_up_to_date_never_dispatches() {
    let mut st = SyntaxCoalesceState::default();
    let id = fresh_id();
    let r = DocumentRevision(42);
    assert!(!st.should_spawn_for(id, r, true));
    st.on_dispatch(id, r);
    assert!(!st.should_spawn_for(id, r, true));
}

#[test]
fn test_request_construction_uses_retained_for_incremental() {
    let mut st = SyntaxCoalesceState::default();
    let id = fresh_id();
    let rev = DocumentRevision(7);
    assert!(st.should_spawn_for(id, rev, false));
    st.on_dispatch(id, rev);
    assert!(st.has_in_flight());
}

fn fresh_req(rev: u64, content: &str) -> SaveRequestData {
    SaveRequestData {
        epoch: WorkspaceEpoch(1),
        doc_id: fresh_id(),
        revision: DocumentRevision(rev),
        path: "/tmp/d.rs".to_owned(),
        content: content.to_owned(),
    }
}

#[test]
fn save_coalesce_retains_latest_and_launches_only_after_result() {
    let mut st = SaveCoalesceState::default();
    let id = fresh_id();
    let mut r_n = fresh_req(10, "N");
    r_n.doc_id = id;
    let mut r_np1 = fresh_req(11, "N+1");
    r_np1.doc_id = id;

    let launched = st.on_request(r_n);
    assert!(launched.is_some());
    assert_eq!(launched.unwrap().revision, DocumentRevision(10));
    assert!(st.has_in_flight_for(id));
    assert!(!st.pending.contains_key(&id.0));

    let launched2 = st.on_request(r_np1);
    assert!(launched2.is_none());
    assert!(st.has_in_flight_for(id));
    let pend = st.pending.get(&id.0).unwrap();
    assert_eq!(pend.revision, DocumentRevision(11));
    assert_eq!(pend.content, "N+1");

    let next = st.on_result(id, DocumentRevision(10));
    assert!(next.is_some());
    let next = next.unwrap();
    assert_eq!(next.revision, DocumentRevision(11));
    assert!(st.has_in_flight_for(id));
}

#[test]
fn concurrent_n_np1_cannot_commit_n_after_np1_because_serialized() {
    let mut st = SaveCoalesceState::default();
    let id = fresh_id();
    let mut rn = fresh_req(5, "content-of-5");
    rn.doc_id = id;
    let mut rnp = fresh_req(6, "content-of-6");
    rnp.doc_id = id;

    assert!(st.on_request(rn).is_some());
    let _ = st.on_request(rnp);

    let after_n = st.on_result(id, DocumentRevision(5));
    assert!(after_n.is_some());
    assert_eq!(after_n.unwrap().content, "content-of-6");

    assert!(st.on_result(id, DocumentRevision(6)).is_none());
}

#[test]
fn save_coalesce_different_docs_are_independent() {
    let mut st = SaveCoalesceState::default();
    let id1 = fresh_id();
    let id2 = fresh_id();
    let mut r1 = fresh_req(1, "d1");
    r1.doc_id = id1;
    let mut r2 = fresh_req(1, "d2");
    r2.doc_id = id2;

    assert!(st.on_request(r1).is_some());
    assert!(st.on_request(r2).is_some());
    assert!(st.has_in_flight_for(id1));
    assert!(st.has_in_flight_for(id2));

    let pend1 = st.on_result(id1, DocumentRevision(1));
    assert!(pend1.is_none());
    assert!(!st.has_in_flight_for(id1));
    assert!(st.has_in_flight_for(id2));
}

#[test]
fn save_failure_or_stale_result_still_launches_pending_and_leaves_dirty_up_to_app() {
    let mut st = SaveCoalesceState::default();
    let id = fresh_id();
    let mut r1 = fresh_req(100, "v100");
    r1.doc_id = id;
    let mut r2 = fresh_req(101, "v101");
    r2.doc_id = id;

    let _ = st.on_request(r1);
    let _ = st.on_request(r2);

    let next = st.on_result(id, DocumentRevision(100));
    assert!(next.is_some());
    assert_eq!(next.unwrap().revision, DocumentRevision(101));
}

#[test]
fn save_coalesce_clear_and_reuse() {
    let mut st = SaveCoalesceState::default();
    let id = fresh_id();
    let mut r = fresh_req(1, "x");
    r.doc_id = id;
    let _ = st.on_request(r);
    st.clear();
    assert!(!st.has_in_flight_for(id));
    assert!(st.pending.is_empty());
}

#[test]
fn on_result_deferred_marks_in_flight_so_next_request_coalesces_pending_never_concurrent() {
    let mut st = SaveCoalesceState::default();
    let id = fresh_id();
    let mut rn = fresh_req(1, "N");
    rn.doc_id = id;
    let mut rnp1 = fresh_req(2, "N+1");
    rnp1.doc_id = id;
    let mut rnp2 = fresh_req(3, "N+2");
    rnp2.doc_id = id;

    assert!(st.on_request(rn).is_some());
    assert!(st.has_in_flight_for(id));

    assert!(st.on_request(rnp1).is_none());
    assert!(st.pending.contains_key(&id.0));

    let deferred = st.on_result(id, DocumentRevision(1));
    assert!(deferred.is_some());
    assert_eq!(deferred.unwrap().revision, DocumentRevision(2));
    assert!(st.has_in_flight_for(id));

    let later = st.on_request(rnp2);
    assert!(later.is_none());
    assert!(st.has_in_flight_for(id));
    let pend = st.pending.get(&id.0).unwrap();
    assert_eq!(pend.revision, DocumentRevision(3));
}

fn fresh_path(s: &str) -> String {
    s.to_owned()
}

#[test]
fn test_coalesce_at_most_one_worker_retain_latest_pending() {
    let mut st = ProjectFileCoalesceState::default();
    let p1 = fresh_path("/a.rs");
    let p2 = fresh_path("/b.rs");
    let e = WorkspaceEpoch(42);

    assert!(st.on_request(p1.clone(), e));
    assert!(st.has_in_flight());
    assert_eq!(st.in_flight, Some((p1.clone(), e)));

    assert!(!st.on_request(p2.clone(), e));
    assert_eq!(st.pending, Some((p2.clone(), e)));
    assert!(st.has_in_flight());
}

#[test]
fn test_duplicate_path_coalesces_without_spawning() {
    let mut st = ProjectFileCoalesceState::default();
    let p = fresh_path("/main.rs");
    let e1 = WorkspaceEpoch(1);
    let e2 = WorkspaceEpoch(2);

    assert!(st.on_request(p.clone(), e1));
    assert!(!st.on_request(p.clone(), e2));
    assert_eq!(st.pending, Some((p, e2)));
}

#[test]
fn test_stale_result_ignored_no_wedge_future_requests() {
    let mut st = ProjectFileCoalesceState::default();
    let p = fresh_path("/x.rs");
    let e = WorkspaceEpoch(7);

    st.on_dispatch(p.clone(), e);
    assert!(!st.on_result(&p, WorkspaceEpoch(6)));
    assert!(st.has_in_flight());
    assert!(st.on_result(&p, e));
    assert!(!st.has_in_flight());
}

#[test]
fn test_drain_clears_and_launches_latest_only_if_epoch_current() {
    let mut st = ProjectFileCoalesceState::default();
    let p1 = fresh_path("/old");
    let p2 = fresh_path("/new");
    let e1 = WorkspaceEpoch(1);
    let e2 = WorkspaceEpoch(2);

    st.on_dispatch(p1.clone(), e1);
    let _ = st.on_request(p2.clone(), e2);

    assert!(st.on_result(&p1, e1));
    assert!(!st.has_in_flight());

    if let Some((pp, ee)) = st.take_pending() {
        if ee == e2 {
            st.on_dispatch(pp.clone(), ee);
        }
    }
    assert!(st.has_in_flight());
    assert_eq!(st.in_flight, Some((p2, e2)));
}

#[test]
fn test_stale_pending_not_launched_on_clear() {
    let mut st = ProjectFileCoalesceState::default();
    let p = fresh_path("/f.rs");
    st.on_dispatch(p.clone(), WorkspaceEpoch(10));
    st.pending = Some((p.clone(), WorkspaceEpoch(99)));

    assert!(st.on_result(&p, WorkspaceEpoch(10)));
    if let Some((pp, ee)) = st.take_pending() {
        if ee == WorkspaceEpoch(10) {
            st.on_dispatch(pp, ee);
        }
    }
    assert!(!st.has_in_flight());
}
