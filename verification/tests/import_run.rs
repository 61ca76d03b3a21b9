use zenops::import::ImportError;
use zenops::import_run::{import_step, parse_config_doc, ImportRunAction, ImportRunEvent, ImportStage};

fn shown(dry_run: bool, noop: bool, yes: bool, can_ask: bool) -> ImportRunEvent {
    ImportRunEvent::Shown { dry_run, noop, yes, can_ask }
}

#[test]
fn config_doc_parses_or_reports_the_parser_message() {
    let doc = parse_config_doc("[pkg.foo]\n[[pkg.foo.configs]]\ntype = \".config\"\n").unwrap();
    assert!(doc.to_string().contains("pkg.foo"));
    assert!(matches!(parse_config_doc("[pkg\n"), Err(ImportError::ConfigParse(_))));
}

#[test]
fn dry_run_stops_after_the_plan() {
    assert_eq!(import_step(ImportStage::Planned, shown(true, false, false, true)), (ImportStage::Finished, ImportRunAction::Stop));
}

#[test]
fn noop_plan_is_reported_without_asking() {
    assert_eq!(
        import_step(ImportStage::Planned, shown(false, true, false, true)),
        (ImportStage::Finished, ImportRunAction::ReportApplied { is_noop: true })
    );
}

#[test]
fn import_run_asks_then_applies_then_writes() {
    let (s, a) = import_step(ImportStage::Planned, shown(false, false, false, true));
    assert_eq!((s, a), (ImportStage::Confirming, ImportRunAction::Confirm));
    let (s, a) = import_step(s, ImportRunEvent::Answered(true));
    assert_eq!((s, a), (ImportStage::ApplyingFiles, ImportRunAction::ApplyFiles));
    let (s, a) = import_step(s, ImportRunEvent::FilesApplied);
    assert_eq!((s, a), (ImportStage::Writing, ImportRunAction::WriteConfig));
    let (s, a) = import_step(s, ImportRunEvent::Written);
    assert_eq!((s, a), (ImportStage::Finished, ImportRunAction::ReportApplied { is_noop: false }));
}

#[test]
fn refusing_the_plan_aborts() {
    assert_eq!(import_step(ImportStage::Confirming, ImportRunEvent::Answered(false)), (ImportStage::Aborted, ImportRunAction::Abort));
}

#[test]
fn yes_or_no_one_to_ask_applies_directly() {
    assert_eq!(import_step(ImportStage::Planned, shown(false, false, true, true)).1, ImportRunAction::ApplyFiles);
    assert_eq!(import_step(ImportStage::Planned, shown(false, false, false, false)).1, ImportRunAction::ApplyFiles);
}

#[test]
fn a_failed_file_step_rolls_back_and_writes_nothing() {
    assert_eq!(
        import_step(ImportStage::ApplyingFiles, ImportRunEvent::FileStepFailed),
        (ImportStage::RolledBack, ImportRunAction::RollBack)
    );
    assert_eq!(import_step(ImportStage::RolledBack, ImportRunEvent::Written).1, ImportRunAction::Stop);
}
