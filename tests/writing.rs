use kaomoji_store::durable::{DurableWrite, WriteStage};

fn run(target_exists: bool, outcomes: &[Result<(), &str>]) -> (Vec<WriteStage>, DurableWrite) {
    let mut w = DurableWrite::start();
    let mut seen = vec![w.stage];
    for o in outcomes {
        w = w.advance(target_exists, o.map_err(|e| e.to_string()));
        seen.push(w.stage);
    }
    (seen, w)
}

fn touches(s: &WriteStage) -> bool {
    matches!(s, WriteStage::ReplaceTarget | WriteStage::MoveReplaceTarget | WriteStage::MoveIntoPlace)
}

#[test]
fn new_target_moves_into_place() {
    let (seen, w) = run(false, &[Ok(()); 6]);
    assert_eq!(
        seen,
        vec![
            WriteStage::CreateTemp,
            WriteStage::WriteContent,
            WriteStage::FlushTemp,
            WriteStage::MoveIntoPlace,
            WriteStage::FlushDirectory,
            WriteStage::RemoveTemp { succeeded: true },
            WriteStage::Done { succeeded: true },
        ]
    );
    assert_eq!(w.result(), Some(Ok(())));
}

#[test]
fn existing_target_is_replaced() {
    let (seen, w) = run(true, &[Ok(()); 6]);
    assert_eq!(seen[3], WriteStage::ReplaceTarget);
    assert_eq!(w.result(), Some(Ok(())));
}

#[test]
fn replace_failure_falls_back_to_move() {
    let (seen, w) = run(true, &[Ok(()), Ok(()), Ok(()), Err("denied"), Ok(()), Ok(()), Ok(())]);
    assert_eq!(seen[4], WriteStage::MoveReplaceTarget);
    assert_eq!(w.result(), Some(Ok(())));
}

#[test]
fn both_swaps_failing_reports_both_errors() {
    let (_, w) = run(true, &[Ok(()), Ok(()), Ok(()), Err("e1"), Err("e2"), Err("ignored")]);
    assert_eq!(
        w.result(),
        Some(Err("atomic replace failed (e1); move-with-replace failed (e2)".to_string()))
    );
}

#[test]
fn interruption_before_swap_never_touches_target() {
    for fail_at in 0..3 {
        let mut outcomes = vec![Ok(()); fail_at];
        outcomes.push(Err("io"));
        outcomes.push(Ok(()));
        let (seen, w) = run(true, &outcomes);
        assert!(!seen.iter().any(touches));
        assert_eq!(w.result(), Some(Err("io".to_string())));
    }
}

#[test]
fn cleanup_failure_is_swallowed() {
    let (_, w) = run(false, &[Ok(()), Ok(()), Ok(()), Ok(()), Err("dir"), Err("rm")]);
    assert_eq!(w.result(), Some(Ok(())));
}

#[test]
fn unfinished_write_has_no_result() {
    let (_, w) = run(false, &[Ok(())]);
    assert_eq!(w.result(), None);
}
