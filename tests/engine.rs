use board_sync::engine::{is_expired, operations_conflict, text_less, DDSManager};
use board_sync::schedule::{next_round, PollOutcome, RoundPlan, SWEEP_EVERY};
use board_sync::json::Json;
use board_sync::model::{
    DDSBoardChangeData, InsertNodeOperation, Operation, PlaitElement, RemoveNodeOperation,
    SetNodeOperation,
};

fn s(t: &str) -> String {
    t.to_string()
}

fn node(id: &str) -> PlaitElement {
    PlaitElement {
        id: s(id),
        element_type: s("geometry"),
        shape: None,
        points: None,
        children: None,
        text: None,
        fill: None,
        stroke: None,
        extra: vec![],
    }
}

fn set_color(path: Vec<u64>, color: &str) -> Operation {
    Operation::SetNode(SetNodeOperation {
        path,
        node: None,
        properties: Some(vec![(s("color"), Json::Str(s(color)))]),
        new_properties: None,
    })
}

fn insert(path: Vec<u64>, id: &str) -> Operation {
    Operation::Insert(InsertNodeOperation { path, node: node(id) })
}

fn remove(path: Vec<u64>, id: &str) -> Operation {
    Operation::Remove(RemoveNodeOperation { path, node: node(id) })
}

fn batch(source: &str, timestamp: &str, operations: Vec<Operation>) -> DDSBoardChangeData {
    DDSBoardChangeData {
        operations,
        timestamp: s(timestamp),
        source_id: s(source),
        children: None,
        viewport: None,
    }
}

fn same(b: &DDSBoardChangeData) -> DDSBoardChangeData {
    b.deep_clone()
}

#[test]
fn own_batches_are_never_forwarded() {
    let mut engine = DDSManager::new(s("me"));
    let mut forwarded = 0;
    for i in 0..20u64 {
        let ts = format!("2024-05-01T10:00:{:02}+00:00", i);
        let b = batch("me", &ts, vec![set_color(vec![i], "#000000")]);
        if engine.receive_batch(b).is_some() {
            forwarded += 1;
        }
    }
    assert_eq!(forwarded, 0);
    assert_eq!(engine.pending_count(), 0);
    assert!(engine.watermark().is_none());
}

#[test]
fn set_against_pending_set_is_a_path_conflict() {
    let mut engine = DDSManager::new(s("c"));
    engine.receive_batch(batch("a", "2024-05-01T10:00:00Z", vec![set_color(vec![0], "#ff0000")]));
    let b = batch("b", "2024-05-01T10:00:01Z", vec![set_color(vec![0], "#00ff00")]);
    assert!(engine.has_path_conflicts(&b));
    let r = batch("b", "2024-05-01T10:00:01Z", vec![remove(vec![0], "n")]);
    assert!(engine.has_path_conflicts(&r));
}

#[test]
fn inserts_at_same_path_do_not_conflict() {
    let mut engine = DDSManager::new(s("c"));
    engine.receive_batch(batch("a", "2024-05-01T10:00:00Z", vec![insert(vec![0], "x")]));
    let b = batch("b", "2024-05-01T10:00:01Z", vec![insert(vec![0], "y")]);
    assert!(!engine.has_path_conflicts(&b));
    let other_path = batch("b", "2024-05-01T10:00:01Z", vec![set_color(vec![1], "#00ff00")]);
    assert!(!engine.has_path_conflicts(&other_path));
}

#[test]
fn operation_pairs_that_conflict() {
    assert!(operations_conflict(&set_color(vec![2, 1], "#1"), &set_color(vec![2, 1], "#2")));
    assert!(operations_conflict(&remove(vec![2], "a"), &set_color(vec![2], "#2")));
    assert!(operations_conflict(&set_color(vec![2], "#2"), &remove(vec![2], "a")));
    assert!(operations_conflict(&remove(vec![2], "a"), &remove(vec![2], "b")));
    assert!(operations_conflict(&insert(vec![2], "a"), &remove(vec![2], "b")));
    assert!(!operations_conflict(&insert(vec![2], "a"), &insert(vec![2], "b")));
    assert!(!operations_conflict(&set_color(vec![2], "#1"), &set_color(vec![2, 0], "#2")));
    let generic = Operation::Generic(Json::Null);
    assert!(!operations_conflict(&generic, &set_color(vec![2], "#1")));
}

#[test]
fn sweep_evicts_entry_after_max_age() {
    let mut engine = DDSManager::new(s("c"));
    engine.receive_batch(batch("a", "2024-05-01T10:00:00+00:00", vec![insert(vec![0], "x")]));
    assert!(engine.pending_for(&s("a")).is_some());
    // 2024-05-01T10:00:00Z is 1714557600000 milliseconds after the epoch
    engine.evict_expired(1714557601000, 1);
    assert!(engine.pending_for(&s("a")).is_some());
    engine.evict_expired(1714557602000, 1);
    assert!(engine.pending_for(&s("a")).is_none());
    assert_eq!(engine.pending_count(), 0);
}

#[test]
fn sweep_reads_offsets_and_keeps_unreadable_stamps() {
    let mut engine = DDSManager::new(s("c"));
    engine.receive_batch(batch("a", "2024-05-01T12:00:00+02:00", vec![insert(vec![0], "x")]));
    engine.receive_batch(batch("b", "not a time", vec![insert(vec![1], "y")]));
    engine.evict_expired(1714557602000, 1);
    assert!(engine.pending_for(&s("a")).is_none());
    assert!(engine.pending_for(&s("b")).is_some());
}

#[test]
fn periodic_sweep_removes_old_entries() {
    let mut engine = DDSManager::new(s("c"));
    engine.receive_batch(batch("a", "2000-01-01T00:00:00Z", vec![insert(vec![0], "x")]));
    engine.receive_batch(batch("b", "2000-01-01T00:00:59.500Z", vec![insert(vec![1], "y")]));
    // 2000-01-01T00:01:00Z is 946684860000 milliseconds after the epoch
    engine.cleanup_pending_operations(946684860000, 59);
    assert!(engine.pending_for(&s("a")).is_none());
    assert!(engine.pending_for(&s("b")).is_some());
}

#[test]
fn expiry_is_strictly_older_than_max_age() {
    assert!(!is_expired(Some(100), 1100, 1));
    assert!(is_expired(Some(100), 1101, 1));
    assert!(!is_expired(None, i64::MAX, 0));
    assert!(is_expired(Some(i64::MIN), i64::MAX, i64::MAX / 1000));
    assert!(!is_expired(Some(807), i64::MAX, i64::MAX / 1000));
}

#[test]
fn stamps_compare_as_text() {
    assert!(text_less(&s("2024-05-01T10:00:00Z"), &s("2024-05-01T10:00:01Z")));
    assert!(!text_less(&s("2024-05-01T10:00:01Z"), &s("2024-05-01T10:00:00Z")));
    assert!(!text_less(&s("2024-05-01T10:00:00Z"), &s("2024-05-01T10:00:00Z")));
    assert!(text_less(&s("2024"), &s("2024-")));
    assert!(text_less(&s("z"), &s("é")));
}

#[test]
fn last_writer_wins_scenario() {
    let mut engine = DDSManager::new(s("c"));
    let a = batch("a", "2024-05-01T10:00:00Z", vec![set_color(vec![0], "#ff0000")]);
    let fa = engine.receive_batch(same(&a));
    assert_eq!(fa, Some(same(&a)));
    assert_eq!(engine.pending_for(&s("a")), Some(&a));
    assert_eq!(engine.watermark(), Some(&s("2024-05-01T10:00:00Z")));

    let b = batch("b", "2024-05-01T10:00:01Z", vec![set_color(vec![0], "#00ff00")]);
    assert!(engine.has_path_conflicts(&b));
    let fb = engine.receive_batch(same(&b));
    assert_eq!(fb, Some(same(&b)));
    assert!(engine.pending_for(&s("a")).is_none());
    assert_eq!(engine.pending_for(&s("b")), Some(&b));
    assert_eq!(engine.pending_count(), 1);
}

#[test]
fn malformed_payload_then_valid_message() {
    let mut engine = DDSManager::new(s("c"));
    assert_eq!(
        board_sync::codec::payload_text(vec![b'{', 0xc3]),
        Err(board_sync::codec::CodecError::InvalidEncoding)
    );
    let truncated = Json::Object(vec![(s("operations"), Json::Array(vec![]))]);
    assert_eq!(
        engine.try_receive_board_change(Some(&truncated)),
        Err(board_sync::codec::CodecError::MalformedPayload)
    );
    assert_eq!(engine.pending_count(), 0);
    let good = batch("a", "2024-05-01T10:00:00Z", vec![insert(vec![0], "x")]);
    let wire = board_sync::codec::encode_batch(&good);
    assert_eq!(engine.try_receive_board_change(Some(&wire)), Ok(Some(same(&good))));
    assert_eq!(engine.try_receive_board_change(None), Ok(None));
    assert_eq!(engine.pending_count(), 1);
}

#[test]
fn stale_first_batch_of_an_origin_is_accepted() {
    let mut engine = DDSManager::new(s("c"));
    engine.receive_batch(batch("a", "2024-05-01T10:00:10Z", vec![insert(vec![0], "x")]));
    let old = batch("b", "2024-05-01T10:00:05Z", vec![insert(vec![1], "y")]);
    assert_eq!(engine.receive_batch(same(&old)), Some(same(&old)));
    assert_eq!(engine.pending_for(&s("b")), Some(&old));
    assert_eq!(engine.watermark(), Some(&s("2024-05-01T10:00:05Z")));
}

#[test]
fn stale_batch_against_own_origin() {
    let mut engine = DDSManager::new(s("c"));
    engine.receive_batch(batch("a", "2024-05-01T10:00:10Z", vec![insert(vec![0], "x")]));
    // an older stamp than the pending batch of the same origin replaces it
    let older = batch("a", "2024-05-01T10:00:05Z", vec![insert(vec![1], "y")]);
    assert_eq!(engine.receive_batch(same(&older)), Some(same(&older)));
    assert_eq!(engine.pending_for(&s("a")), Some(&older));
    assert_eq!(engine.watermark(), Some(&s("2024-05-01T10:00:10Z")));
    // a stamp no earlier than the pending one, but under the watermark, is dropped
    let equal = batch("a", "2024-05-01T10:00:05Z", vec![insert(vec![2], "z")]);
    assert_eq!(engine.receive_batch(equal), None);
    assert_eq!(engine.pending_for(&s("a")), Some(&older));
}

#[test]
fn published_batch_carries_origin_and_operations() {
    let engine = DDSManager::new(s("me"));
    let ops = vec![set_color(vec![0], "#123456")];
    let b = engine.outgoing_batch(&ops, s("2024-05-01T10:00:00Z"));
    assert_eq!(b, batch("me", "2024-05-01T10:00:00Z", vec![set_color(vec![0], "#123456")]));
    let wire = engine.publish_board_change(&ops, s("2024-05-01T10:00:02Z"));
    let back = board_sync::codec::decode_batch(&wire).unwrap();
    assert_eq!(back, batch("me", "2024-05-01T10:00:02Z", vec![set_color(vec![0], "#123456")]));
}

#[test]
fn own_batches_in_sequence_are_never_forwarded() {
    let mut engine = DDSManager::new(s("c"));
    engine.receive_batch(batch("a", "2024-05-01T10:00:00Z", vec![set_color(vec![0], "#1")]));
    let own: Vec<DDSBoardChangeData> = (0..12u64)
        .map(|i| batch("c", &format!("2024-05-01T09:00:{:02}Z", i), vec![set_color(vec![0], "#2")]))
        .collect();
    let forwarded = engine.receive_batches(own);
    assert!(forwarded.is_empty());
    assert_eq!(engine.pending_count(), 1);
    assert_eq!(engine.watermark(), Some(&s("2024-05-01T10:00:00Z")));
}

#[test]
fn batches_in_sequence_forward_in_order() {
    let mut engine = DDSManager::new(s("c"));
    let a = batch("a", "2024-05-01T10:00:00Z", vec![insert(vec![0], "x")]);
    let own = batch("c", "2024-05-01T10:00:01Z", vec![insert(vec![1], "y")]);
    let b = batch("b", "2024-05-01T10:00:02Z", vec![insert(vec![2], "z")]);
    let forwarded = engine.receive_batches(vec![same(&a), own, same(&b)]);
    assert_eq!(forwarded, vec![a, b]);
    assert_eq!(engine.pending_count(), 2);
}

#[test]
fn receive_loop_cadence() {
    assert_eq!(next_round(0, PollOutcome::Message), RoundPlan { rounds: 1, sweep: false, pause_ms: 0 });
    assert_eq!(next_round(5, PollOutcome::Empty), RoundPlan { rounds: 6, sweep: false, pause_ms: 50 });
    assert_eq!(next_round(5, PollOutcome::Failed), RoundPlan { rounds: 6, sweep: false, pause_ms: 1000 });
    assert_eq!(next_round(7, PollOutcome::Busy), RoundPlan { rounds: 7, sweep: false, pause_ms: 100 });
    assert_eq!(
        next_round(SWEEP_EVERY - 1, PollOutcome::Empty),
        RoundPlan { rounds: 0, sweep: true, pause_ms: 50 }
    );
    assert_eq!(
        next_round(SWEEP_EVERY - 2, PollOutcome::Empty),
        RoundPlan { rounds: SWEEP_EVERY - 1, sweep: false, pause_ms: 50 }
    );
    assert_eq!(next_round(u32::MAX, PollOutcome::Message), RoundPlan { rounds: 0, sweep: true, pause_ms: 0 });
}
