use object_etl::batch::{Batcher, LOAD_BATCH_MAX, TRANSFORM_BATCH_MAX};
use object_etl::driver::Driver;
use object_etl::extract::{ExtractAction, ExtractEvent, Extractor, Page, TxBlock, RETRY_DELAY_MS, STALL_DELAY_MS};
use object_etl::load::{doc_key, object_id_text_of, plan_store_op, store_outcome, version_text, StoreOp};
use object_etl::model::{ObjectChange, ObjectId, ObjectSnapshot, StepStatus, TxDigest};
use object_etl::transform::{
    parse_past_object_response, past_object_requests, resolve_bulk, resolve_fallback, resolve_individual,
    split_batch, FetchFailed, PastObjectResponse,
};

fn oid(b: u8) -> ObjectId {
    ObjectId { bytes: [b; 32] }
}

fn dig(b: u8) -> TxDigest {
    TxDigest { bytes: [b; 32] }
}

fn snap(change: ObjectChange) -> ObjectSnapshot<String> {
    ObjectSnapshot::new(dig(9), change)
}

fn page(blocks: Vec<(u8, Vec<ObjectChange>)>, next: Option<u8>) -> Page {
    Page {
        data: blocks.into_iter().map(|(d, cs)| TxBlock { digest: dig(d), object_changes: Some(cs) }).collect(),
        next_cursor: next.map(dig),
    }
}

fn changes_of(events: &[ObjectSnapshot<String>]) -> Vec<ObjectChange> {
    events.iter().map(|e| e.change).collect()
}

#[test]
fn step_status_names() {
    assert_eq!(StepStatus::Succeeded.name(), "Ok");
    assert_eq!(StepStatus::Failed.name(), "Err");
}

#[test]
fn change_accessors() {
    let s = snap(ObjectChange::Mutated { object_id: oid(3), version: 17 });
    assert_eq!(s.get_change_version(), 17);
    let req = s.get_past_object_request();
    assert_eq!(req.object_id, oid(3));
    assert_eq!(req.version, 17);
    assert!(!s.skip_fetching_object());
    assert!(!snap(ObjectChange::Published { package_id: oid(1), version: 1 }).skip_fetching_object());
    assert!(!snap(ObjectChange::Created { object_id: oid(1), version: 1 }).skip_fetching_object());
    assert!(snap(ObjectChange::Transferred { object_id: oid(1), version: 1 }).skip_fetching_object());
    assert!(snap(ObjectChange::Deleted { object_id: oid(1), version: 1 }).skip_fetching_object());
    assert!(snap(ObjectChange::Wrapped { object_id: oid(1), version: 1 }).skip_fetching_object());
}

#[test]
fn extracted_changes_are_unaltered() {
    let c1 = ObjectChange::Created { object_id: oid(1), version: 4 };
    let c2 = ObjectChange::Deleted { object_id: oid(2), version: 8 };
    let c3 = ObjectChange::Transferred { object_id: oid(3), version: 2 };
    let mut p = page(vec![(1, vec![c1, c2]), (2, vec![c3])], Some(7));
    p.data.push(TxBlock { digest: dig(5), object_changes: None });
    let mut ex = Extractor::new(None);
    let step = ex.step::<String>(ExtractEvent::PageReceived(p));
    assert_eq!(changes_of(&step.events), vec![c1, c2, c3]);
    assert_eq!(step.events[0].digest, dig(1));
    assert_eq!(step.events[1].digest, dig(1));
    assert_eq!(step.events[2].digest, dig(2));
    assert!(step.events.iter().all(|e| e.object.is_none()));
    assert_eq!(step.action, ExtractAction::Advance { previous: None, next: dig(7) });
    assert_eq!(ex.cursor, Some(dig(7)));
}

#[test]
fn stalled_page_is_not_emitted_twice() {
    let a = ObjectChange::Created { object_id: oid(1), version: 1 };
    let b = ObjectChange::Mutated { object_id: oid(2), version: 2 };
    let mut ex = Extractor::new(Some(dig(100)));
    let mut out: Vec<ObjectSnapshot<String>> = Vec::new();

    let s1 = ex.step::<String>(ExtractEvent::PageReceived(page(vec![(1, vec![a])], Some(11))));
    assert_eq!(s1.action, ExtractAction::Advance { previous: Some(dig(100)), next: dig(11) });
    out.extend(s1.events);

    let s2 = ex.step::<String>(ExtractEvent::PageReceived(page(vec![(2, vec![b])], None)));
    assert_eq!(s2.action, ExtractAction::Wait { delay_ms: STALL_DELAY_MS });
    assert_eq!(ex.cursor, Some(dig(11)));
    out.extend(s2.events);

    let s_fail = ex.step::<String>(ExtractEvent::RequestFailed);
    assert!(s_fail.events.is_empty());
    assert_eq!(s_fail.action, ExtractAction::Wait { delay_ms: RETRY_DELAY_MS });
    assert_eq!(ex.retry_count, 1);

    let s_again = ex.step::<String>(ExtractEvent::PageReceived(page(vec![(2, vec![b])], None)));
    assert!(s_again.events.is_empty());

    let s3 = ex.step::<String>(ExtractEvent::PageReceived(page(vec![(2, vec![b])], Some(12))));
    assert!(s3.events.is_empty());
    assert_eq!(s3.action, ExtractAction::Advance { previous: Some(dig(11)), next: dig(12) });
    assert!(!ex.skip_page);

    assert_eq!(changes_of(&out), vec![a, b]);
}

#[test]
fn cancellation_stops_extraction() {
    let mut ex = Extractor::new(None);
    let s = ex.step::<String>(ExtractEvent::Cancelled);
    assert_eq!(s.action, ExtractAction::Stop);
    let later = ex.step::<String>(ExtractEvent::PageReceived(page(
        vec![(1, vec![ObjectChange::Created { object_id: oid(1), version: 1 }])],
        Some(2),
    )));
    assert!(later.events.is_empty());
    assert_eq!(later.action, ExtractAction::Stop);
}

#[test]
fn split_batch_keeps_order_and_passes_skips_first() {
    let chunk = vec![
        snap(ObjectChange::Created { object_id: oid(1), version: 1 }),
        snap(ObjectChange::Deleted { object_id: oid(2), version: 5 }),
        snap(ObjectChange::Mutated { object_id: oid(3), version: 2 }),
        snap(ObjectChange::Wrapped { object_id: oid(4), version: 3 }),
    ];
    let (passed, fetch) = split_batch(chunk);
    assert_eq!(passed.len(), 2);
    assert!(passed.iter().all(|(st, _)| *st == StepStatus::Succeeded));
    assert_eq!(passed[0].1.change, ObjectChange::Deleted { object_id: oid(2), version: 5 });
    assert_eq!(passed[1].1.change, ObjectChange::Wrapped { object_id: oid(4), version: 3 });
    assert_eq!(changes_of(&fetch), vec![
        ObjectChange::Created { object_id: oid(1), version: 1 },
        ObjectChange::Mutated { object_id: oid(3), version: 2 },
    ]);
    let reqs = past_object_requests(&fetch);
    assert_eq!(reqs.len(), 2);
    assert_eq!((reqs[1].object_id, reqs[1].version), (oid(3), 2));
}

#[test]
fn only_found_versions_resolve() {
    assert_eq!(parse_past_object_response(PastObjectResponse::VersionFound("o".to_string())), Some("o".to_string()));
    assert_eq!(parse_past_object_response::<String>(PastObjectResponse::ObjectNotExists(oid(1))), None);
    assert_eq!(parse_past_object_response::<String>(PastObjectResponse::VersionNotFound(oid(1), 3)), None);
    assert_eq!(
        parse_past_object_response::<String>(PastObjectResponse::ObjectDeleted { object_id: oid(1), version: 3 }),
        None
    );
    assert_eq!(
        parse_past_object_response::<String>(PastObjectResponse::VersionTooHigh {
            object_id: oid(1),
            asked_version: 9,
            latest_version: 4
        }),
        None
    );
}

#[test]
fn bulk_answers_pair_in_order_and_drop_absent() {
    let items = vec![
        snap(ObjectChange::Created { object_id: oid(1), version: 1 }),
        snap(ObjectChange::Mutated { object_id: oid(2), version: 2 }),
        snap(ObjectChange::Published { package_id: oid(3), version: 1 }),
    ];
    let answers = vec![
        PastObjectResponse::VersionFound("one".to_string()),
        PastObjectResponse::ObjectNotExists(oid(2)),
        PastObjectResponse::VersionFound("three".to_string()),
    ];
    let out = resolve_bulk(items, answers).unwrap();
    assert_eq!(out.len(), 2);
    assert_eq!(out[0].0, StepStatus::Succeeded);
    assert_eq!(out[0].1.object, Some("one".to_string()));
    assert_eq!(out[0].1.change, ObjectChange::Created { object_id: oid(1), version: 1 });
    assert_eq!(out[1].1.object, Some("three".to_string()));
    assert_eq!(out[1].1.change, ObjectChange::Published { package_id: oid(3), version: 1 });
}

#[test]
fn bulk_length_mismatch_is_refused() {
    let items = vec![
        snap(ObjectChange::Created { object_id: oid(1), version: 1 }),
        snap(ObjectChange::Mutated { object_id: oid(2), version: 2 }),
    ];
    let answers = vec![PastObjectResponse::VersionFound("one".to_string())];
    let err = resolve_bulk(items, answers).unwrap_err();
    assert_eq!((err.requested, err.received), (2, 1));

    let items = vec![snap(ObjectChange::Created { object_id: oid(1), version: 1 })];
    let answers = vec![
        PastObjectResponse::VersionFound("one".to_string()),
        PastObjectResponse::VersionFound("two".to_string()),
    ];
    let err = resolve_bulk(items, answers).unwrap_err();
    assert_eq!((err.requested, err.received), (1, 2));
}

#[test]
fn fallback_matches_individual_fetches() {
    let items = vec![
        snap(ObjectChange::Created { object_id: oid(1), version: 1 }),
        snap(ObjectChange::Mutated { object_id: oid(2), version: 2 }),
        snap(ObjectChange::Mutated { object_id: oid(3), version: 7 }),
    ];
    let results = vec![
        Ok(PastObjectResponse::VersionFound("one".to_string())),
        Err(FetchFailed),
        Ok(PastObjectResponse::VersionTooHigh { object_id: oid(3), asked_version: 7, latest_version: 6 }),
    ];
    let mut one_by_one = Vec::new();
    for (item, res) in items.clone().into_iter().zip(results.clone()) {
        if let Some(x) = resolve_individual(item, res) {
            one_by_one.push(x);
        }
    }
    let out = resolve_fallback(items, results);
    assert_eq!(out.len(), 2);
    assert_eq!(out.len(), one_by_one.len());
    for (a, b) in out.iter().zip(one_by_one.iter()) {
        assert_eq!(a.0, b.0);
        assert_eq!(a.1.change, b.1.change);
        assert_eq!(a.1.object, b.1.object);
    }
    assert_eq!(out[0].0, StepStatus::Succeeded);
    assert_eq!(out[0].1.object, Some("one".to_string()));
    assert_eq!(out[1].0, StepStatus::Failed);
    assert_eq!(out[1].1.change, ObjectChange::Mutated { object_id: oid(2), version: 2 });
    assert_eq!(out[1].1.object, None);
}

#[test]
fn fallback_with_successful_calls_equals_bulk() {
    let items = vec![
        snap(ObjectChange::Created { object_id: oid(1), version: 1 }),
        snap(ObjectChange::Mutated { object_id: oid(2), version: 2 }),
    ];
    let answers = vec![PastObjectResponse::VersionFound("a".to_string()), PastObjectResponse::ObjectNotExists(oid(2))];
    let bulk = resolve_bulk(items.clone(), answers.clone()).unwrap();
    let fallback = resolve_fallback(items, answers.into_iter().map(Ok).collect());
    assert_eq!(bulk.len(), fallback.len());
    assert_eq!(bulk[0].1.object, fallback[0].1.object);
    assert_eq!(bulk[0].0, fallback[0].0);
}

#[test]
fn key_texts() {
    assert_eq!(version_text(0), "0");
    assert_eq!(version_text(5), "5");
    assert_eq!(version_text(1234567890), "1234567890");
    assert_eq!(version_text(u64::MAX), "18446744073709551615");
    let mut bytes = [0u8; 32];
    bytes[0] = 0xab;
    bytes[31] = 0x0f;
    let text = object_id_text_of(&ObjectId { bytes });
    assert_eq!(text, format!("0xab{}0f", "0".repeat(60)));
    assert_eq!(text.len(), 66);
}

#[test]
fn deletion_plans_one_delete() {
    let item = snap(ObjectChange::Deleted { object_id: oid(0x11), version: 5 });
    let op = plan_store_op(&item).unwrap();
    match op {
        StoreOp::Delete { key } => {
            assert_eq!(key.id, format!("0x{}", "11".repeat(32)));
            assert_eq!(key.version, "5");
        }
        StoreOp::Upsert { .. } => panic!("a deletion must not upsert"),
    }
}

#[test]
fn creation_plans_one_upsert() {
    let mut item = snap(ObjectChange::Created { object_id: oid(0x22), version: 1 });
    item.object = Some("O".to_string());
    let op = plan_store_op(&item).unwrap();
    match op {
        StoreOp::Upsert { key } => {
            assert_eq!(key, doc_key(&item.change));
            assert_eq!(key.id, format!("0x{}", "22".repeat(32)));
            assert_eq!(key.version, "1");
        }
        StoreOp::Delete { .. } => panic!("a creation must not delete"),
    }
    assert_eq!(item.object.as_deref(), Some("O"));
}

#[test]
fn other_changes_plan_nothing() {
    assert!(plan_store_op(&snap(ObjectChange::Transferred { object_id: oid(1), version: 1 })).is_none());
    assert!(plan_store_op(&snap(ObjectChange::Wrapped { object_id: oid(1), version: 1 })).is_none());
    assert!(plan_store_op(&snap(ObjectChange::Published { package_id: oid(1), version: 1 })).is_none());
}

#[test]
fn store_outcome_reports_status() {
    let item = snap(ObjectChange::Deleted { object_id: oid(1), version: 1 });
    let (st, back) = store_outcome(item.clone(), Ok::<(), String>(()));
    assert_eq!(st, StepStatus::Succeeded);
    assert_eq!(back.change, item.change);
    let (st, _) = store_outcome(item, Err::<(), String>("down".to_string()));
    assert_eq!(st, StepStatus::Failed);
}

#[test]
fn driver_stops_at_first_failure() {
    let mut d = Driver::new();
    let outcomes = vec![
        (StepStatus::Succeeded, 1),
        (StepStatus::Succeeded, 2),
        (StepStatus::Failed, 3),
        (StepStatus::Succeeded, 4),
    ];
    let passed: Vec<i32> = outcomes.into_iter().filter_map(|(s, i)| d.forward(s, i)).collect();
    assert_eq!(passed, vec![1, 2]);
    assert!(d.halted);
}

#[test]
fn batcher_flushes_on_count() {
    let mut b: Batcher<u32> = Batcher::new(3, 1000);
    assert_eq!(b.push(1, 0), None);
    assert_eq!(b.push(2, 10), None);
    assert_eq!(b.push(3, 20), Some(vec![1, 2, 3]));
    assert_eq!(b.deadline(), None);
    assert_eq!(b.finish(), None);
}

#[test]
fn batcher_flushes_on_time() {
    let mut b: Batcher<u32> = Batcher::new(TRANSFORM_BATCH_MAX, 1000);
    assert_eq!(b.push(7, 500), None);
    assert_eq!(b.deadline(), Some(1500));
    assert_eq!(b.poll(1499), None);
    assert_eq!(b.push(8, 1200), None);
    assert_eq!(b.poll(1500), Some(vec![7, 8]));
    assert_eq!(b.poll(5000), None);
    assert_eq!(b.push(9, 6000), None);
    assert_eq!(b.push(10, 7000), Some(vec![9, 10]));
}

#[test]
fn batcher_never_exceeds_limit() {
    let mut b: Batcher<usize> = Batcher::new(LOAD_BATCH_MAX, 1000);
    let mut chunks = Vec::new();
    for i in 0..200 {
        if let Some(c) = b.push(i, 0) {
            chunks.push(c);
        }
    }
    if let Some(c) = b.finish() {
        chunks.push(c);
    }
    assert!(chunks.iter().all(|c| !c.is_empty() && c.len() <= LOAD_BATCH_MAX));
    assert_eq!(chunks.iter().map(|c| c.len()).collect::<Vec<_>>(), vec![64, 64, 64, 8]);
    let flat: Vec<usize> = chunks.into_iter().flatten().collect();
    assert_eq!(flat, (0..200).collect::<Vec<_>>());
}
