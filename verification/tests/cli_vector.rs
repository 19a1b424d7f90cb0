//! The switch of the embedding model.

use mdya::cli::vector::{
    declare_model, format_switch_summary, parse_confirmation, Built, ModelSwitch, SwitchEvent,
    SwitchStep, VectorUseError,
};
use mdya::config::{Config, ConfigError};
use mdya::ingest::{IngestError, UpdateSummary};

#[test]
fn parse_confirmation_accepts_y_and_yes_case_insensitively() {
    for ok in ["y", "Y", "yes", "YES", "Yes", " y \n", "yes\n"] {
        assert!(parse_confirmation(ok), "{ok:?} should confirm");
    }
}

#[test]
fn parse_confirmation_rejects_empty_and_anything_else() {
    for no in ["", "\n", "n", "N", "no", "nope", "ye", "yess", "1", "ok"] {
        assert!(!parse_confirmation(no), "{no:?} should decline");
    }
}

#[test]
fn format_switch_summary_reports_total_removed_and_failed() {
    let s = UpdateSummary {
        new: 7,
        updated: 0,
        skipped: 0,
        removed: 2,
        failed: 1,
    };
    let out = format_switch_summary("ollama:nomic-embed-text", &s);
    assert_eq!(
        out,
        "Switched embedding model to 'ollama:nomic-embed-text'. Re-embedded 8 document(s) (removed: 2, failed: 1)."
    );
}

fn switch(assume_yes: bool) -> ModelSwitch {
    ModelSwitch {
        current: "old".to_string(),
        model: "new".to_string(),
        assume_yes,
        collections: 2,
    }
}

fn built(dim: usize) -> Built {
    Built { model_id: "new".to_string(), dim }
}

fn was_built(stdin_is_terminal: bool) -> SwitchEvent {
    SwitchEvent::Built { result: Ok(built(384)), stdin_is_terminal }
}

#[test]
fn a_model_in_use_is_not_switched_to() {
    let same = ModelSwitch { model: "old".to_string(), ..switch(true) };
    let SwitchStep::Notice(text) = same.start() else {
        panic!("nothing is due");
    };
    assert_eq!(text, "Already using 'old'; nothing to do.");
}

#[test]
fn a_switch_goes_from_the_embedder_to_the_report() {
    let switch = switch(false);
    let step = switch.start();
    assert!(matches!(step, SwitchStep::Build));
    let step = switch.next_step(step, was_built(true));
    let SwitchStep::Ask { ref prompt, .. } = step else {
        panic!("the user is asked");
    };
    assert_eq!(
        prompt,
        "This will switch the embedding model:\n  old -> new (dim 384)\nThe chunks index will \
         be DROPPED and 2 collection(s) re-embedded from scratch.\nProceed? [y/N]: "
    );
    let step = switch.next_step(step, SwitchEvent::Answered(Ok("Yes\n".to_string())));
    assert!(matches!(step, SwitchStep::Save { .. }));
    let step = switch.next_step(step, SwitchEvent::Saved(Ok(())));
    assert!(matches!(step, SwitchStep::Recreate { dim: 384, .. }));
    let step = switch.next_step(step, SwitchEvent::Recreated(Ok(())));
    assert!(matches!(step, SwitchStep::Reembed));
    let summary = UpdateSummary { new: 2, failed: 1, ..UpdateSummary::default() };
    let SwitchStep::Report { line, result } =
        switch.next_step(step, SwitchEvent::Reembedded(Ok(summary)))
    else {
        panic!("the end");
    };
    assert_eq!(line, format_switch_summary("new", &summary));
    assert!(matches!(result, Err(VectorUseError::FilesFailed(1))));
    let clean = UpdateSummary { new: 2, ..UpdateSummary::default() };
    assert!(matches!(
        switch.next_step(SwitchStep::Reembed, SwitchEvent::Reembedded(Ok(clean))),
        SwitchStep::Report { result: Ok(()), .. }
    ));
}

#[test]
fn nothing_is_changed_without_an_embedder_or_a_yes() {
    let no_model = || VectorUseError::Store("x".to_string());
    let event = SwitchEvent::Built { result: Err(no_model()), stdin_is_terminal: true };
    assert!(matches!(
        switch(true).next_step(SwitchStep::Build, event),
        SwitchStep::Failed(VectorUseError::Store(_))
    ));
    assert!(matches!(
        switch(false).next_step(SwitchStep::Build, was_built(false)),
        SwitchStep::Failed(VectorUseError::NonInteractive)
    ));
    assert!(matches!(
        switch(true).next_step(SwitchStep::Build, was_built(false)),
        SwitchStep::Save { .. }
    ));
    let ask = || SwitchStep::Ask { built: built(384), prompt: String::new() };
    let SwitchStep::Notice(text) =
        switch(false).next_step(ask(), SwitchEvent::Answered(Ok("n\n".to_string())))
    else {
        panic!("declined");
    };
    assert_eq!(text, "Aborted, no changes made.");
    assert!(matches!(
        switch(false).next_step(ask(), SwitchEvent::Answered(Err("closed".to_string()))),
        SwitchStep::Failed(VectorUseError::Stdin(_))
    ));
    assert!(matches!(
        switch(false).next_step(ask(), SwitchEvent::Saved(Ok(()))),
        SwitchStep::Ask { .. }
    ));
}

#[test]
fn a_step_that_fails_ends_the_switch() {
    let (switch, too_long) = (switch(true), i32::MAX as usize + 1);
    let save = |dim| SwitchStep::Save { built: built(dim) };
    assert!(matches!(
        switch.next_step(save(too_long), SwitchEvent::Saved(Ok(()))),
        SwitchStep::Failed(VectorUseError::DimOverflow(n)) if n == too_long
    ));
    let unsaved = ConfigError::SerializeYaml("x".to_string());
    assert!(matches!(
        switch.next_step(save(1), SwitchEvent::Saved(Err(unsaved))),
        SwitchStep::Failed(VectorUseError::Config(_))
    ));
    let recreate = SwitchStep::Recreate { built: built(1), dim: 1 };
    let lost = VectorUseError::Lance("x".to_string());
    assert!(matches!(
        switch.next_step(recreate, SwitchEvent::Recreated(Err(lost))),
        SwitchStep::Failed(VectorUseError::Lance(_))
    ));
    let broken = IngestError::Io("x".to_string());
    assert!(matches!(
        switch.next_step(SwitchStep::Reembed, SwitchEvent::Reembedded(Err(broken))),
        SwitchStep::Failed(VectorUseError::Ingest(_))
    ));
}

#[test]
fn a_declared_model_leaves_the_rest_as_it_was() {
    let mut config = Config::init_template();
    config.runtime.memory_limit_mb = 7;
    declare_model(&mut config, "ollama:m");
    assert_eq!(config.embedding.model, "ollama:m");
    assert_eq!(config.runtime.memory_limit_mb, 7);
}
