//! `vector use`: the switch of the embedding model, which drops the index.
//!
//! Nothing is written before the new model's embedder stands and the switch is
//! confirmed, so that a misspelt model or a backend out of reach costs nothing.

use crate::config::error::ConfigError;
use crate::config::schema::Config;
use crate::embedding::error::with_label;
use crate::embedding::{EmbedError, ModelCacheError};
use crate::ingest::error::IngestError;
use crate::ingest::writer::UpdateSummary;
use crate::reading::{
    find, find_number, find_passes, find_skips, number_behind, number_is_plain, regroup_three,
};
use crate::text::{
    ascii_lowercase, ascii_lowercase_spec, decimal, decimal_spec, from_chars, is_digit, same_text,
    to_chars, trim, trim_spec,
};
use vstd::prelude::*;
use vstd::string::StringExecFns;

verus! {

/// Why the switch failed.
#[derive(Debug)]
pub enum VectorUseError {
    Config(ConfigError),
    ModelCache(ModelCacheError),
    Embedding(EmbedError),
    Ingest(IngestError),
    Store(String),
    Lance(String),
    DimOverflow(usize),
    NonInteractive,
    Stdin(String),
    FilesFailed(u64),
}

impl VectorUseError {
    /// The text shown to the user.
    pub open spec fn message_spec(self) -> Seq<char> {
        match self {
            VectorUseError::Config(e) => e.message_spec(),
            VectorUseError::ModelCache(e) => e.message_spec(),
            VectorUseError::Embedding(e) => e.message_spec(),
            VectorUseError::Ingest(e) => e.message_spec(),
            VectorUseError::Store(t) => "connect the index db: "@ + t@,
            VectorUseError::Lance(t) => "recreate the chunks table: "@ + t@,
            VectorUseError::DimOverflow(dim) => "new model vector dim "@ + decimal_spec(dim as nat)
                + " does not fit in i32"@,
            VectorUseError::NonInteractive =>
                "refusing to run a destructive model switch without --yes on a non-interactive stdin"@,
            VectorUseError::Stdin(t) => "read confirmation from stdin: "@ + t@,
            VectorUseError::FilesFailed(n) => decimal_spec(n as nat)
                + " file(s) failed during re-embed — check warnings above for details"@,
        }
    }

    /// The text shown to the user.
    pub fn message(&self) -> (text: String)
        ensures
            text@ == self.message_spec(),
    {
        match self {
            VectorUseError::Config(e) => e.message(),
            VectorUseError::ModelCache(e) => e.message(),
            VectorUseError::Embedding(e) => e.message(),
            VectorUseError::Ingest(e) => e.message(),
            VectorUseError::Store(t) => with_label("connect the index db: ", t),
            VectorUseError::Lance(t) => with_label("recreate the chunks table: ", t),
            VectorUseError::DimOverflow(dim) => {
                let mut text: String = with_label(
                    "new model vector dim ",
                    decimal(*dim as u64).as_str(),
                );
                text.append(" does not fit in i32");
                text
            },
            VectorUseError::NonInteractive =>
                "refusing to run a destructive model switch without --yes on a non-interactive stdin".to_string(),
            VectorUseError::Stdin(t) => with_label("read confirmation from stdin: ", t),
            VectorUseError::FilesFailed(n) => {
                let mut text: String = decimal(*n);
                text.append(" file(s) failed during re-embed — check warnings above for details");
                text
            },
        }
    }
}

/// What is said where the model is already in use; nothing where a switch is
/// due.
pub fn already_using(current: &str, model: &str) -> (notice: Option<String>)
    ensures
        match notice {
            Some(text) => current@ == model@ && text@ == "Already using '"@ + model@
                + "'; nothing to do."@,
            None => current@ != model@,
        },
{
    if same_text(current, model) {
        let mut text: String = with_label("Already using '", model);
        text.append("'; nothing to do.");
        Some(text)
    } else {
        None
    }
}

/// How the switch is confirmed.
#[derive(Debug, Clone, Copy, PartialEq, Eq, Structural)]
pub enum Confirmation {
    /// It is, by the flag.
    Given,
    /// The user is asked.
    Ask,
}

/// How the switch is confirmed: by the flag, else by asking at a terminal;
/// nothing is dropped unasked.
pub fn user_confirms(assume_yes: bool, stdin_is_terminal: bool) -> (result: Result<
    Confirmation,
    VectorUseError,
>)
    ensures
        match result {
            Ok(Confirmation::Given) => assume_yes,
            Ok(Confirmation::Ask) => !assume_yes && stdin_is_terminal,
            Err(e) => !assume_yes && !stdin_is_terminal && e is NonInteractive,
        },
{
    if assume_yes {
        return Ok(Confirmation::Given);
    }
    if !stdin_is_terminal {
        return Err(VectorUseError::NonInteractive);
    }
    Ok(Confirmation::Ask)
}

/// The question that is asked before the switch.
pub open spec fn prompt_spec(
    current_model: Seq<char>,
    new_model: Seq<char>,
    new_dim: nat,
    n_collections: nat,
) -> Seq<char> {
    "This will switch the embedding model:\n  "@ + current_model + " -> "@ + new_model + " (dim "@
        + decimal_spec(new_dim) + ")\nThe chunks index will be DROPPED and "@ + decimal_spec(
        n_collections,
    ) + " collection(s) re-embedded from scratch.\nProceed? [y/N]: "@
}

/// The question that is asked before the switch.
pub fn prompt_text(current_model: &str, new_model: &str, new_dim: usize, n_collections: usize) -> (
    text: String)
    ensures
        text@ == prompt_spec(current_model@, new_model@, new_dim as nat, n_collections as nat),
{
    let mut text: String = "This will switch the embedding model:\n  ".to_string();
    text.append(current_model);
    text.append(" -> ");
    text.append(new_model);
    text.append(" (dim ");
    text.append(decimal(new_dim as u64).as_str());
    text.append(")\nThe chunks index will be DROPPED and ");
    text.append(decimal(n_collections as u64).as_str());
    text.append(" collection(s) re-embedded from scratch.\nProceed? [y/N]: ");
    text
}

/// The answer confirms: `y` or `yes`, upper and lower case alike, with any
/// white space around it.
pub open spec fn confirms(input: Seq<char>) -> bool {
    let answer = ascii_lowercase_spec(trim_spec(input));
    answer == "y"@ || answer == "yes"@
}

/// Whether the answer confirms.
pub fn parse_confirmation(input: &str) -> (yes: bool)
    ensures
        yes == confirms(input@),
{
    let trimmed: Vec<char> = trim(to_chars(input).as_slice());
    let answer: String = ascii_lowercase(from_chars(trimmed.as_slice()).as_str());
    same_text(answer.as_str(), "y") || same_text(answer.as_str(), "yes")
}

/// Declares the new model in the configuration. The rest of it stays.
pub fn declare_model(config: &mut Config, model: &str)
    ensures
        final(config).embedding.model@ == model@,
        final(config).embedding.ollama == old(config).embedding.ollama,
        final(config).collections == old(config).collections,
        final(config).runtime == old(config).runtime,
{
    config.embedding.model = model.to_string();
}

/// Files that a run visited.
pub open spec fn visited(s: UpdateSummary) -> int {
    s.new + s.updated + s.skipped + s.failed
}

/// The line that reports a switch.
pub open spec fn switch_line(model: Seq<char>, s: UpdateSummary) -> Seq<char> {
    "Switched embedding model to '"@ + model + "'. Re-embedded "@ + decimal_spec(visited(s) as nat)
        + " document(s) (removed: "@ + decimal_spec(s.removed as nat) + ", failed: "@
        + decimal_spec(s.failed as nat) + ")."@
}

/// The line that reports a switch.
pub fn format_switch_summary(model: &str, s: &UpdateSummary) -> (text: String)
    requires
        visited(*s) <= u64::MAX,
    ensures
        text@ == switch_line(model@, *s),
{
    let total: u64 = s.new + s.updated + s.skipped + s.failed;
    let mut text: String = "Switched embedding model to '".to_string();
    text.append(model);
    text.append("'. Re-embedded ");
    text.append(decimal(total).as_str());
    text.append(" document(s) (removed: ");
    text.append(decimal(s.removed).as_str());
    text.append(", failed: ");
    text.append(decimal(s.failed).as_str());
    text.append(").");
    text
}

/// A switch ends as failed where a file failed.
pub open spec fn ends_as(s: UpdateSummary, result: Result<(), VectorUseError>) -> bool {
    match result {
        Ok(_) => s.failed == 0,
        Err(e) => s.failed > 0 && e == VectorUseError::FilesFailed(s.failed),
    }
}

/// How a switch is reported to the shell.
pub fn switch_result(s: &UpdateSummary) -> (result: Result<(), VectorUseError>)
    ensures
        ends_as(*s, result),
{
    if s.failed > 0 {
        Err(VectorUseError::FilesFailed(s.failed))
    } else {
        Ok(())
    }
}

/// A switch that was asked for.
#[derive(Debug)]
pub struct ModelSwitch {
    /// The model in use.
    pub current: String,
    /// The model to switch to.
    pub model: String,
    /// The switch is confirmed by the flag.
    pub assume_yes: bool,
    /// Number of collections.
    pub collections: usize,
}

/// The new model's embedder: the name of its model and the length of its
/// vectors.
#[derive(Debug)]
pub struct Built {
    pub model_id: String,
    pub dim: usize,
}

/// What to do next.
#[derive(Debug)]
pub enum SwitchStep {
    /// Build the new model's embedder.
    Build,
    /// Show the question and read the answer.
    Ask { built: Built, prompt: String },
    /// Declare the new model in the configuration file.
    Save { built: Built },
    /// Drop the `chunks` table and create it with the new model and length.
    Recreate { built: Built, dim: i32 },
    /// Embed every collection.
    Reembed,
    /// Show the line and end with the result.
    Report { line: String, result: Result<(), VectorUseError> },
    /// Show the notice and end; nothing was changed.
    Notice(String),
    /// End with the error.
    Failed(VectorUseError),
}

/// How a step went.
#[derive(Debug)]
pub enum SwitchEvent {
    Built { result: Result<Built, VectorUseError>, stdin_is_terminal: bool },
    Answered(Result<String, String>),
    Saved(Result<(), ConfigError>),
    Recreated(Result<(), VectorUseError>),
    Reembedded(Result<UpdateSummary, IngestError>),
}

/// `first` is the step a switch starts with: none is due where the model is
/// already in use.
pub open spec fn starts_with(switch: ModelSwitch, first: SwitchStep) -> bool {
    if switch.current@ == switch.model@ {
        first matches SwitchStep::Notice(t) && t@ == "Already using '"@ + switch.model@
            + "'; nothing to do."@
    } else {
        first is Build
    }
}

/// `next` is the step after `step`, given how `step` went. What did not come
/// from `step` changes nothing.
pub open spec fn follows(
    switch: ModelSwitch,
    step: SwitchStep,
    event: SwitchEvent,
    next: SwitchStep,
) -> bool {
    match (step, event) {
        (SwitchStep::Build, SwitchEvent::Built { result: Err(e), .. }) => next
            == SwitchStep::Failed(e),
        (SwitchStep::Build, SwitchEvent::Built { result: Ok(b), stdin_is_terminal }) => {
            if switch.assume_yes {
                next == (SwitchStep::Save { built: b })
            } else if stdin_is_terminal {
                next matches SwitchStep::Ask { built, prompt } && built == b && prompt@
                    == prompt_spec(
                    switch.current@,
                    switch.model@,
                    b.dim as nat,
                    switch.collections as nat,
                )
            } else {
                next == SwitchStep::Failed(VectorUseError::NonInteractive)
            }
        },
        (SwitchStep::Ask { .. }, SwitchEvent::Answered(Err(t))) => next == SwitchStep::Failed(
            VectorUseError::Stdin(t),
        ),
        (SwitchStep::Ask { built, .. }, SwitchEvent::Answered(Ok(line))) => {
            if confirms(line@) {
                next == (SwitchStep::Save { built })
            } else {
                next matches SwitchStep::Notice(t) && t@ == "Aborted, no changes made."@
            }
        },
        (SwitchStep::Save { .. }, SwitchEvent::Saved(Err(e))) => next == SwitchStep::Failed(
            VectorUseError::Config(e),
        ),
        (SwitchStep::Save { built }, SwitchEvent::Saved(Ok(_))) => {
            if built.dim <= i32::MAX {
                next == (SwitchStep::Recreate { built, dim: built.dim as i32 })
            } else {
                next == SwitchStep::Failed(VectorUseError::DimOverflow(built.dim))
            }
        },
        (SwitchStep::Recreate { .. }, SwitchEvent::Recreated(Err(e))) => next
            == SwitchStep::Failed(e),
        (SwitchStep::Recreate { .. }, SwitchEvent::Recreated(Ok(_))) => next is Reembed,
        (SwitchStep::Reembed, SwitchEvent::Reembedded(Err(e))) => next == SwitchStep::Failed(
            VectorUseError::Ingest(e),
        ),
        (SwitchStep::Reembed, SwitchEvent::Reembedded(Ok(s))) => {
            next matches SwitchStep::Report { line, result } && line@ == switch_line(
                switch.model@,
                s,
            ) && ends_as(s, result)
        },
        _ => next == step,
    }
}

impl ModelSwitch {
    /// The first step.
    pub fn start(&self) -> (step: SwitchStep)
        ensures
            starts_with(*self, step),
    {
        match already_using(self.current.as_str(), self.model.as_str()) {
            Some(notice) => SwitchStep::Notice(notice),
            None => SwitchStep::Build,
        }
    }

    /// The step after `step`, given how `step` went.
    pub fn next_step(&self, step: SwitchStep, event: SwitchEvent) -> (next: SwitchStep)
        requires
            event matches SwitchEvent::Reembedded(Ok(s)) ==> visited(s) <= u64::MAX,
        ensures
            follows(*self, step, event, next),
    {
        match (step, event) {
            (SwitchStep::Build, SwitchEvent::Built { result: Err(e), .. }) => SwitchStep::Failed(e),
            (
                SwitchStep::Build,
                SwitchEvent::Built { result: Ok(built), stdin_is_terminal },
            ) => match user_confirms(self.assume_yes, stdin_is_terminal) {
                Ok(Confirmation::Given) => SwitchStep::Save { built },
                Ok(Confirmation::Ask) => {
                    let prompt: String = prompt_text(
                        self.current.as_str(),
                        self.model.as_str(),
                        built.dim,
                        self.collections,
                    );
                    SwitchStep::Ask { built, prompt }
                },
                Err(e) => SwitchStep::Failed(e),
            },
            (SwitchStep::Ask { .. }, SwitchEvent::Answered(Err(t))) => SwitchStep::Failed(
                VectorUseError::Stdin(t),
            ),
            (SwitchStep::Ask { built, .. }, SwitchEvent::Answered(Ok(line))) => {
                if parse_confirmation(line.as_str()) {
                    SwitchStep::Save { built }
                } else {
                    SwitchStep::Notice("Aborted, no changes made.".to_string())
                }
            },
            (SwitchStep::Save { .. }, SwitchEvent::Saved(Err(e))) => SwitchStep::Failed(
                VectorUseError::Config(e),
            ),
            (SwitchStep::Save { built }, SwitchEvent::Saved(Ok(_))) => {
                if built.dim <= 0x7fff_ffff {
                    let dim: i32 = built.dim as i32;
                    SwitchStep::Recreate { built, dim }
                } else {
                    SwitchStep::Failed(VectorUseError::DimOverflow(built.dim))
                }
            },
            (SwitchStep::Recreate { .. }, SwitchEvent::Recreated(Err(e))) => SwitchStep::Failed(e),
            (SwitchStep::Recreate { .. }, SwitchEvent::Recreated(Ok(_))) => SwitchStep::Reembed,
            (SwitchStep::Reembed, SwitchEvent::Reembedded(Err(e))) => SwitchStep::Failed(
                VectorUseError::Ingest(e),
            ),
            (SwitchStep::Reembed, SwitchEvent::Reembedded(Ok(s))) => SwitchStep::Report {
                line: format_switch_summary(self.model.as_str(), &s),
                result: switch_result(&s),
            },
            (step, _) => step,
        }
    }
}

/// The step is past the point from which something is changed.
pub open spec fn writes(step: SwitchStep) -> bool {
    step is Save || step is Recreate || step is Reembed || step is Report
}

/// `steps` are the steps of a switch on which `events` came, one after each
/// step but the last.
pub open spec fn is_run(
    switch: ModelSwitch,
    steps: Seq<SwitchStep>,
    events: Seq<SwitchEvent>,
) -> bool {
    &&& steps.len() == events.len() + 1
    &&& starts_with(switch, steps[0])
    &&& forall|i: int|
        0 <= i < events.len() ==> follows(switch, steps[i], #[trigger] events[i], steps[i + 1])
}

/// The embedder was built.
pub open spec fn built_among(events: Seq<SwitchEvent>) -> bool {
    exists|i: int|
        0 <= i < events.len() && (#[trigger] events[i] matches SwitchEvent::Built {
            result: Ok(_),
            ..
        })
}

/// A confirming answer was given.
pub open spec fn confirmed_among(events: Seq<SwitchEvent>) -> bool {
    exists|i: int|
        0 <= i < events.len() && (#[trigger] events[i] matches SwitchEvent::Answered(Ok(line))
            && confirms(line@))
}

/// Nothing is changed before the new model's embedder was built and the switch
/// was confirmed, by the flag or by an answer; and nothing at all where the
/// model is already in use.
pub proof fn nothing_is_changed_unconfirmed(
    switch: ModelSwitch,
    steps: Seq<SwitchStep>,
    events: Seq<SwitchEvent>,
)
    requires
        is_run(switch, steps, events),
    ensures
        steps.last() is Ask ==> built_among(events),
        writes(steps.last()) ==> {
            &&& switch.current@ != switch.model@
            &&& built_among(events)
            &&& switch.assume_yes || confirmed_among(events)
        },
        switch.current@ == switch.model@ ==> steps.last() == steps[0],
    decreases events.len(),
{
    if events.len() > 0 {
        let n = events.len() - 1;
        let before = events.drop_last();
        let so_far = steps.drop_last();
        assert forall|i: int| 0 <= i < before.len() implies follows(
            switch,
            so_far[i],
            #[trigger] before[i],
            so_far[i + 1],
        ) by {
            assert(before[i] == events[i]);
        }
        nothing_is_changed_unconfirmed(switch, so_far, before);
        let step = so_far.last();
        let event = events[n];
        assert(follows(switch, step, event, steps.last()));
        if built_among(before) {
            let i = choose|i: int|
                0 <= i < before.len() && (#[trigger] before[i] matches SwitchEvent::Built {
                    result: Ok(_),
                    ..
                });
            assert(events[i] == before[i]);
        }
        if confirmed_among(before) {
            let i = choose|i: int|
                0 <= i < before.len() && (#[trigger] before[i] matches SwitchEvent::Answered(
                    Ok(line),
                ) && confirms(line@));
            assert(events[i] == before[i]);
        }
    }
}

proof fn switch_line_reads_back_by_parts(model: Seq<char>, s: UpdateSummary)
    ensures
        switch_line(model, s) == "Switched embedding model to '"@ + (model + ("'. Re-embedded "@ + (decimal_spec(visited(s) as nat) + (" document(s) (removed: "@ + (decimal_spec(s.removed as nat) + (", failed: "@ + (decimal_spec(s.failed as nat) + (")."@)))))))),
{
    let x0 = "Switched embedding model to '"@;
    let x1 = model;
    let x2 = "'. Re-embedded "@;
    let x3 = decimal_spec(visited(s) as nat);
    let x4 = " document(s) (removed: "@;
    let x5 = decimal_spec(s.removed as nat);
    let x6 = ", failed: "@;
    let x7 = decimal_spec(s.failed as nat);
    let x8 = ")."@;
    let s0 = x0;
    let s1 = s0 + x1;
    let s2 = s1 + x2;
    let s3 = s2 + x3;
    let s4 = s3 + x4;
    let s5 = s4 + x5;
    let s6 = s5 + x6;
    let s7 = s6 + x7;
    let s8 = s7 + x8;
    let r8 = x8;
    let r7 = x7 + r8;
    let r6 = x6 + r7;
    let r5 = x5 + r6;
    let r4 = x4 + r5;
    let r3 = x3 + r4;
    let r2 = x2 + r3;
    let r1 = x1 + r2;
    let r0 = x0 + r1;
    regroup_three(s6, x7, r8);
    regroup_three(s5, x6, r7);
    regroup_three(s4, x5, r6);
    regroup_three(s3, x4, r5);
    regroup_three(s2, x3, r4);
    regroup_three(s1, x2, r3);
    regroup_three(s0, x1, r2);
}

proof fn switch_line_head_is_passed(r1: Seq<char>)
    ensures
        find("Switched embedding model to '"@ + r1, " Re-embedded "@) == find(
            r1,
            " Re-embedded "@,
        ),
{
    let mark = " Re-embedded "@;
    let x0 = "Switched embedding model to '"@;
    assert(mark.len() == 13 && mark[0] == ' ') by {
        reveal_strlit(" Re-embedded ");
    }
    assert(x0 =~= "Switched"@ + (" embedding"@ + (" model"@ + (" to"@ + (" '"@))))) by {
        reveal_strlit("Switched embedding model to '");
        reveal_strlit("Switched");
        reveal_strlit(" embedding");
        reveal_strlit(" model");
        reveal_strlit(" to");
        reveal_strlit(" '");
        reveal_strlit(" Re-embedded ");
    }
    regroup_three("Switched"@, " embedding"@ + (" model"@ + (" to"@ + (" '"@))), r1);
    regroup_three(" embedding"@, " model"@ + (" to"@ + (" '"@)), r1);
    regroup_three(" model"@, " to"@ + (" '"@), r1);
    regroup_three(" to"@, " '"@, r1);
    assert(!"Switched"@.contains(mark[0])) by {
        reveal_strlit("Switched");
        reveal_strlit(" Re-embedded ");
    }
    find_skips("Switched"@, (" embedding"@ + (" model"@ + (" to"@ + (" '"@)))) + r1, mark);
    assert(" embedding"@.len() > 1 && mark[1] != " embedding"@[1] && !" embedding"@.skip(1).contains(mark[0])) by {
        reveal_strlit(" embedding");
        reveal_strlit(" Re-embedded ");
    }
    find_passes(" embedding"@, (" model"@ + (" to"@ + (" '"@))) + r1, mark, 1);
    assert(" model"@.len() > 1 && mark[1] != " model"@[1] && !" model"@.skip(1).contains(mark[0])) by {
        reveal_strlit(" model");
        reveal_strlit(" Re-embedded ");
    }
    find_passes(" model"@, (" to"@ + (" '"@)) + r1, mark, 1);
    assert(" to"@.len() > 1 && mark[1] != " to"@[1] && !" to"@.skip(1).contains(mark[0])) by {
        reveal_strlit(" to");
        reveal_strlit(" Re-embedded ");
    }
    find_passes(" to"@, (" '"@) + r1, mark, 1);
    assert(" '"@.len() > 1 && mark[1] != " '"@[1] && !" '"@.skip(1).contains(mark[0])) by {
        reveal_strlit(" '");
        reveal_strlit(" Re-embedded ");
    }
    find_passes(" '"@, r1, mark, 1);
}

proof fn switch_line_reads_back_reembedded(model: Seq<char>, s: UpdateSummary)
    requires
        !model.contains(' '),
        !model.contains(')'),
        !model.contains(','),
    ensures
        number_behind(switch_line(model, s), " Re-embedded "@) == Some((s.new + s.updated + s.skipped + s.failed) as int),
{
    let mark = " Re-embedded "@;
    switch_line_reads_back_by_parts(model, s);
    assert(mark.len() == 13 && mark[0] == ' ') by {
        reveal_strlit(" Re-embedded ");
    }
    let r9 = Seq::<char>::empty();
    let x8 = ")."@;
    let r8 = x8;
    let x7 = decimal_spec(s.failed as nat);
    let r7 = x7 + r8;
    let x6 = ", failed: "@;
    let r6 = x6 + r7;
    let x5 = decimal_spec(s.removed as nat);
    let r5 = x5 + r6;
    let x4 = " document(s) (removed: "@;
    let r4 = x4 + r5;
    let x3 = decimal_spec(visited(s) as nat);
    let r3 = x3 + r4;
    let x2 = "'. Re-embedded "@;
    let r2 = x2 + r3;
    let x1 = model;
    let r1 = x1 + r2;
    let x0 = "Switched embedding model to '"@;
    let r0 = x0 + r1;
    switch_line_head_is_passed(r1);
    find_skips(x1, r2, mark);
    assert(x2 =~= "'."@ + mark && !"'."@.contains(mark[0])) by {
        reveal_strlit("'. Re-embedded ");
        reveal_strlit("'.");
        reveal_strlit(" Re-embedded ");
    }
    regroup_three("'."@, mark, r3);
    find_skips("'."@, mark + r3, mark);
    assert(r4.len() > 0 && !is_digit(r4[0])) by {
        reveal_strlit(" document(s) (removed: ");
        reveal_strlit(" Re-embedded ");
    }
    find_number(mark, visited(s) as nat, r4);
}

proof fn switch_line_reads_back_removed(model: Seq<char>, s: UpdateSummary)
    requires
        !model.contains(' '),
        !model.contains(')'),
        !model.contains(','),
    ensures
        number_behind(switch_line(model, s), ") (removed: "@) == Some(s.removed as int),
{
    let mark = ") (removed: "@;
    switch_line_reads_back_by_parts(model, s);
    assert(mark.len() == 12 && mark[0] == ')') by {
        reveal_strlit(") (removed: ");
    }
    let r9 = Seq::<char>::empty();
    let x8 = ")."@;
    let r8 = x8;
    let x7 = decimal_spec(s.failed as nat);
    let r7 = x7 + r8;
    let x6 = ", failed: "@;
    let r6 = x6 + r7;
    let x5 = decimal_spec(s.removed as nat);
    let r5 = x5 + r6;
    let x4 = " document(s) (removed: "@;
    let r4 = x4 + r5;
    let x3 = decimal_spec(visited(s) as nat);
    let r3 = x3 + r4;
    let x2 = "'. Re-embedded "@;
    let r2 = x2 + r3;
    let x1 = model;
    let r1 = x1 + r2;
    let x0 = "Switched embedding model to '"@;
    let r0 = x0 + r1;
    assert(!x0.contains(mark[0])) by {
        reveal_strlit("Switched embedding model to '");
        reveal_strlit(") (removed: ");
    }
    find_skips(x0, r1, mark);
    find_skips(x1, r2, mark);
    assert(!x2.contains(mark[0])) by {
        reveal_strlit("'. Re-embedded ");
        reveal_strlit(") (removed: ");
    }
    find_skips(x2, r3, mark);
    number_is_plain(visited(s) as nat);
    find_skips(x3, r4, mark);
    assert(x4 =~= " document(s"@ + mark && !" document(s"@.contains(mark[0])) by {
        reveal_strlit(" document(s) (removed: ");
        reveal_strlit(" document(s");
        reveal_strlit(") (removed: ");
    }
    regroup_three(" document(s"@, mark, r5);
    find_skips(" document(s"@, mark + r5, mark);
    assert(r6.len() > 0 && !is_digit(r6[0])) by {
        reveal_strlit(", failed: ");
        reveal_strlit(") (removed: ");
    }
    find_number(mark, s.removed as nat, r6);
}

proof fn switch_line_reads_back_failed(model: Seq<char>, s: UpdateSummary)
    requires
        !model.contains(' '),
        !model.contains(')'),
        !model.contains(','),
    ensures
        number_behind(switch_line(model, s), ", failed: "@) == Some(s.failed as int),
{
    let mark = ", failed: "@;
    switch_line_reads_back_by_parts(model, s);
    assert(mark.len() == 10 && mark[0] == ',') by {
        reveal_strlit(", failed: ");
    }
    let r9 = Seq::<char>::empty();
    let x8 = ")."@;
    let r8 = x8;
    let x7 = decimal_spec(s.failed as nat);
    let r7 = x7 + r8;
    let x6 = ", failed: "@;
    let r6 = x6 + r7;
    let x5 = decimal_spec(s.removed as nat);
    let r5 = x5 + r6;
    let x4 = " document(s) (removed: "@;
    let r4 = x4 + r5;
    let x3 = decimal_spec(visited(s) as nat);
    let r3 = x3 + r4;
    let x2 = "'. Re-embedded "@;
    let r2 = x2 + r3;
    let x1 = model;
    let r1 = x1 + r2;
    let x0 = "Switched embedding model to '"@;
    let r0 = x0 + r1;
    assert(!x0.contains(mark[0])) by {
        reveal_strlit("Switched embedding model to '");
        reveal_strlit(", failed: ");
    }
    find_skips(x0, r1, mark);
    find_skips(x1, r2, mark);
    assert(!x2.contains(mark[0])) by {
        reveal_strlit("'. Re-embedded ");
        reveal_strlit(", failed: ");
    }
    find_skips(x2, r3, mark);
    number_is_plain(visited(s) as nat);
    find_skips(x3, r4, mark);
    assert(!x4.contains(mark[0])) by {
        reveal_strlit(" document(s) (removed: ");
        reveal_strlit(", failed: ");
    }
    find_skips(x4, r5, mark);
    number_is_plain(s.removed as nat);
    find_skips(x5, r6, mark);
    assert(r8.len() > 0 && !is_digit(r8[0])) by {
        reveal_strlit(").");
        reveal_strlit(", failed: ");
    }
    find_number(mark, s.failed as nat, r8);
}

/// Every count of a switch is shown under its own name, and the first number is
/// the number of files that were visited.
pub proof fn switch_line_reads_back(model: Seq<char>, s: UpdateSummary)
    requires
        !model.contains(' '),
        !model.contains(')'),
        !model.contains(','),
    ensures
        number_behind(switch_line(model, s), " Re-embedded "@) == Some((s.new + s.updated + s.skipped + s.failed) as int),
        number_behind(switch_line(model, s), ") (removed: "@) == Some(s.removed as int),
        number_behind(switch_line(model, s), ", failed: "@) == Some(s.failed as int),
{
    switch_line_reads_back_reembedded(model, s);
    switch_line_reads_back_removed(model, s);
    switch_line_reads_back_failed(model, s);
}

/// The configuration was written.
pub open spec fn saved_among(events: Seq<SwitchEvent>) -> bool {
    exists|i: int|
        0 <= i < events.len() && (#[trigger] events[i] matches SwitchEvent::Saved(Ok(_)))
}

/// The table was made anew.
pub open spec fn recreated_among(events: Seq<SwitchEvent>) -> bool {
    exists|i: int|
        0 <= i < events.len() && (#[trigger] events[i] matches SwitchEvent::Recreated(Ok(_)))
}

/// The embedder `built` was built.
pub open spec fn is_built_among(events: Seq<SwitchEvent>, built: Built) -> bool {
    exists|i: int|
        0 <= i < events.len() && (#[trigger] events[i] matches SwitchEvent::Built {
            result: Ok(b),
            ..
        } && b == built)
}

/// Steps are taken in order and none is left out: the table is made anew only
/// once the configuration is written, and the collections are embedded only once
/// the table is made anew; and the table gets the model and the vector length of
/// the embedder that was built.
pub proof fn switch_goes_in_order(
    switch: ModelSwitch,
    steps: Seq<SwitchStep>,
    events: Seq<SwitchEvent>,
)
    requires
        is_run(switch, steps, events),
    ensures
        steps.last() is Recreate || steps.last() is Reembed || steps.last() is Report
            ==> saved_among(events),
        steps.last() is Reembed || steps.last() is Report ==> recreated_among(events),
        steps.last() matches SwitchStep::Ask { built, .. } ==> is_built_among(events, built),
        steps.last() matches SwitchStep::Save { built } ==> is_built_among(events, built),
        steps.last() matches SwitchStep::Recreate { built, dim } ==> is_built_among(events, built)
            && dim == built.dim,
    decreases events.len(),
{
    if events.len() > 0 {
        let n = events.len() - 1;
        let before = events.drop_last();
        let so_far = steps.drop_last();
        assert forall|i: int| 0 <= i < before.len() implies follows(
            switch,
            so_far[i],
            #[trigger] before[i],
            so_far[i + 1],
        ) by {
            assert(before[i] == events[i]);
        }
        switch_goes_in_order(switch, so_far, before);
        let step = so_far.last();
        let event = events[n];
        assert(follows(switch, step, event, steps.last()));
        if saved_among(before) {
            let i = choose|i: int|
                0 <= i < before.len() && (#[trigger] before[i] matches SwitchEvent::Saved(Ok(_)));
            assert(events[i] == before[i]);
        }
        if recreated_among(before) {
            let i = choose|i: int|
                0 <= i < before.len() && (#[trigger] before[i] matches SwitchEvent::Recreated(Ok(_)));
            assert(events[i] == before[i]);
        }
        assert forall|b: Built| #[trigger] is_built_among(before, b) implies is_built_among(
            events,
            b,
        ) by {
            let i = choose|i: int|
                0 <= i < before.len() && (#[trigger] before[i] matches SwitchEvent::Built {
                    result: Ok(c),
                    ..
                } && c == b);
            assert(events[i] == before[i]);
        }
        if let SwitchEvent::Built { result: Ok(b), .. } = event {
            assert(is_built_among(events, b));
        }
    }
}

/// A switch that is confirmed and meets no failure goes through to the end: it
/// writes the configuration, makes the table anew with the new vector length,
/// embeds, and reports, as failed exactly where a file failed.
pub proof fn confirmed_switch_goes_through(
    switch: ModelSwitch,
    built: Built,
    at_terminal: bool,
    answer: String,
    asked: SwitchStep,
    save: SwitchStep,
    recreate: SwitchStep,
    reembed: SwitchStep,
    summary: UpdateSummary,
    end: SwitchStep,
)
    requires
        switch.assume_yes || at_terminal && confirms(answer@),
        built.dim <= i32::MAX,
        follows(
            switch,
            SwitchStep::Build,
            (SwitchEvent::Built { result: Ok(built), stdin_is_terminal: at_terminal }),
            asked,
        ),
        if asked is Ask {
            follows(switch, asked, SwitchEvent::Answered(Ok(answer)), save)
        } else {
            save == asked
        },
        follows(switch, save, SwitchEvent::Saved(Ok(())), recreate),
        follows(switch, recreate, SwitchEvent::Recreated(Ok(())), reembed),
        follows(switch, reembed, SwitchEvent::Reembedded(Ok(summary)), end),
    ensures
        asked is Ask <==> !switch.assume_yes,
        save == (SwitchStep::Save { built }),
        recreate matches SwitchStep::Recreate { built: b, dim } && b == built && dim == built.dim,
        reembed is Reembed,
        end matches SwitchStep::Report { result, .. } && (result is Err <==> summary.failed > 0),
{
}

/// An answer confirms whatever white space is around it and in whatever case it
/// is written; in lower case and without white space, `y` and `yes` confirm and
/// nothing else does.
pub proof fn yes_confirms(answer: Seq<char>, other: Seq<char>)
    requires
        ascii_lowercase_spec(trim_spec(answer)) == ascii_lowercase_spec(trim_spec(other)),
    ensures
        confirms(answer) == confirms(other),
        trim_spec(answer) == answer && ascii_lowercase_spec(answer) == answer ==> (confirms(answer)
            <==> answer == "y"@ || answer == "yes"@),
{
}

proof fn prompt_reads_back_by_parts(current: Seq<char>, model: Seq<char>, dim: nat, collections: nat)
    ensures
        prompt_spec(current, model, dim, collections) == "This will switch the embedding model:\n  "@ + (current + (" -> "@ + (model + (" (dim "@ + (decimal_spec(dim as nat) + (")\nThe chunks index will be DROPPED and "@ + (decimal_spec(collections as nat) + (" collection(s) re-embedded from scratch.\nProceed? [y/N]: "@)))))))),
{
    let x0 = "This will switch the embedding model:\n  "@;
    let x1 = current;
    let x2 = " -> "@;
    let x3 = model;
    let x4 = " (dim "@;
    let x5 = decimal_spec(dim as nat);
    let x6 = ")\nThe chunks index will be DROPPED and "@;
    let x7 = decimal_spec(collections as nat);
    let x8 = " collection(s) re-embedded from scratch.\nProceed? [y/N]: "@;
    let s0 = x0;
    let s1 = s0 + x1;
    let s2 = s1 + x2;
    let s3 = s2 + x3;
    let s4 = s3 + x4;
    let s5 = s4 + x5;
    let s6 = s5 + x6;
    let s7 = s6 + x7;
    let s8 = s7 + x8;
    let r8 = x8;
    let r7 = x7 + r8;
    let r6 = x6 + r7;
    let r5 = x5 + r6;
    let r4 = x4 + r5;
    let r3 = x3 + r4;
    let r2 = x2 + r3;
    let r1 = x1 + r2;
    let r0 = x0 + r1;
    regroup_three(s6, x7, r8);
    regroup_three(s5, x6, r7);
    regroup_three(s4, x5, r6);
    regroup_three(s3, x4, r5);
    regroup_three(s2, x3, r4);
    regroup_three(s1, x2, r3);
    regroup_three(s0, x1, r2);
}

proof fn prompt_reads_back_dim(current: Seq<char>, model: Seq<char>, dim: nat, collections: nat)
    requires
        !current.contains('('),
        !model.contains('('),
        !current.contains(')'),
        !model.contains(')'),
    ensures
        number_behind(prompt_spec(current, model, dim, collections), "(dim "@) == Some(dim as int),
{
    let mark = "(dim "@;
    prompt_reads_back_by_parts(current, model, dim, collections);
    assert(mark.len() == 5 && mark[0] == '(') by {
        reveal_strlit("(dim ");
    }
    let r9 = Seq::<char>::empty();
    let x8 = " collection(s) re-embedded from scratch.\nProceed? [y/N]: "@;
    let r8 = x8;
    let x7 = decimal_spec(collections as nat);
    let r7 = x7 + r8;
    let x6 = ")\nThe chunks index will be DROPPED and "@;
    let r6 = x6 + r7;
    let x5 = decimal_spec(dim as nat);
    let r5 = x5 + r6;
    let x4 = " (dim "@;
    let r4 = x4 + r5;
    let x3 = model;
    let r3 = x3 + r4;
    let x2 = " -> "@;
    let r2 = x2 + r3;
    let x1 = current;
    let r1 = x1 + r2;
    let x0 = "This will switch the embedding model:\n  "@;
    let r0 = x0 + r1;
    assert(!x0.contains(mark[0])) by {
        reveal_strlit("This will switch the embedding model:\n  ");
        reveal_strlit("(dim ");
    }
    find_skips(x0, r1, mark);
    find_skips(x1, r2, mark);
    assert(!x2.contains(mark[0])) by {
        reveal_strlit(" -> ");
        reveal_strlit("(dim ");
    }
    find_skips(x2, r3, mark);
    find_skips(x3, r4, mark);
    assert(x4 =~= " "@ + mark && !" "@.contains(mark[0])) by {
        reveal_strlit(" (dim ");
        reveal_strlit(" ");
        reveal_strlit("(dim ");
    }
    regroup_three(" "@, mark, r5);
    find_skips(" "@, mark + r5, mark);
    assert(r6.len() > 0 && !is_digit(r6[0])) by {
        reveal_strlit(")\nThe chunks index will be DROPPED and ");
        reveal_strlit("(dim ");
    }
    find_number(mark, dim as nat, r6);
}

proof fn prompt_reads_back_collections(current: Seq<char>, model: Seq<char>, dim: nat, collections: nat)
    requires
        !current.contains('('),
        !model.contains('('),
        !current.contains(')'),
        !model.contains(')'),
    ensures
        number_behind(prompt_spec(current, model, dim, collections), ")\nThe chunks index will be DROPPED and "@) == Some(collections as int),
{
    let mark = ")\nThe chunks index will be DROPPED and "@;
    prompt_reads_back_by_parts(current, model, dim, collections);
    assert(mark.len() == 39 && mark[0] == ')') by {
        reveal_strlit(")\nThe chunks index will be DROPPED and ");
    }
    let r9 = Seq::<char>::empty();
    let x8 = " collection(s) re-embedded from scratch.\nProceed? [y/N]: "@;
    let r8 = x8;
    let x7 = decimal_spec(collections as nat);
    let r7 = x7 + r8;
    let x6 = ")\nThe chunks index will be DROPPED and "@;
    let r6 = x6 + r7;
    let x5 = decimal_spec(dim as nat);
    let r5 = x5 + r6;
    let x4 = " (dim "@;
    let r4 = x4 + r5;
    let x3 = model;
    let r3 = x3 + r4;
    let x2 = " -> "@;
    let r2 = x2 + r3;
    let x1 = current;
    let r1 = x1 + r2;
    let x0 = "This will switch the embedding model:\n  "@;
    let r0 = x0 + r1;
    assert(!x0.contains(mark[0])) by {
        reveal_strlit("This will switch the embedding model:\n  ");
        reveal_strlit(")\nThe chunks index will be DROPPED and ");
    }
    find_skips(x0, r1, mark);
    find_skips(x1, r2, mark);
    assert(!x2.contains(mark[0])) by {
        reveal_strlit(" -> ");
        reveal_strlit(")\nThe chunks index will be DROPPED and ");
    }
    find_skips(x2, r3, mark);
    find_skips(x3, r4, mark);
    assert(!x4.contains(mark[0])) by {
        reveal_strlit(" (dim ");
        reveal_strlit(")\nThe chunks index will be DROPPED and ");
    }
    find_skips(x4, r5, mark);
    number_is_plain(dim as nat);
    find_skips(x5, r6, mark);
    assert(r8.len() > 0 && !is_digit(r8[0])) by {
        reveal_strlit(" collection(s) re-embedded from scratch.\nProceed? [y/N]: ");
        reveal_strlit(")\nThe chunks index will be DROPPED and ");
    }
    find_number(mark, collections as nat, r8);
}

/// The question tells the new vector length and the number of collections.
pub proof fn prompt_reads_back(current: Seq<char>, model: Seq<char>, dim: nat, collections: nat)
    requires
        !current.contains('('),
        !model.contains('('),
        !current.contains(')'),
        !model.contains(')'),
    ensures
        number_behind(prompt_spec(current, model, dim, collections), "(dim "@) == Some(dim as int),
        number_behind(prompt_spec(current, model, dim, collections), ")\nThe chunks index will be DROPPED and "@) == Some(collections as int),
{
    prompt_reads_back_dim(current, model, dim, collections);
    prompt_reads_back_collections(current, model, dim, collections);
}

} // verus!
