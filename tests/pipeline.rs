use mity::pipeline::{Pipeline, PipelineAction, RunState, Stage, StageOutcome};

#[test]
fn stages_run_in_order_then_finish() {
    let mut p = Pipeline::new(vec![Stage::Call, Stage::Compress, Stage::Index], vec!["o.gz".to_string()]);
    assert!(matches!(p.first_action(), PipelineAction::Run(Stage::Call)));
    assert!(matches!(p.record(StageOutcome::Succeeded), PipelineAction::Run(Stage::Compress)));
    assert!(matches!(p.record(StageOutcome::Succeeded), PipelineAction::Run(Stage::Index)));
    assert!(matches!(p.record(StageOutcome::Succeeded), PipelineAction::Finish));
    assert_eq!(p.state, RunState::Finished);
}

#[test]
fn a_middle_failure_stops_everything() {
    let mut p = Pipeline::new(vec![Stage::Call, Stage::Compress, Stage::Index], vec!["o.gz".to_string()]);
    assert!(matches!(p.record(StageOutcome::Succeeded), PipelineAction::Run(Stage::Compress)));
    match p.record(StageOutcome::Failed("disk full".to_string())) {
        PipelineAction::Abort { error, discard } => {
            assert_eq!(error.message(), "bgzip failed: disk full");
            assert_eq!(discard, vec!["o.gz".to_string()]);
        }
        other => panic!("unexpected {:?}", other),
    }
    assert_eq!(p.state, RunState::Failed);
    assert_eq!(p.next, 1);
}
