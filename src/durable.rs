use vstd::prelude::*;
use vstd::string::StringExecFns;

verus! {

/// Where a durable write of a target file stands. The caller performs the
/// step that the stage names, then reports its outcome to
/// [`DurableWrite::advance`].
#[derive(Debug, Clone, Copy, PartialEq, Eq, Structural)]
pub enum WriteStage {
    /// Create the temporary sibling file.
    CreateTemp,
    /// Write the whole content into the temporary file.
    WriteContent,
    /// Force the temporary file's data to storage.
    FlushTemp,
    /// Atomically replace the existing target by the temporary file.
    ReplaceTarget,
    /// Atomically move the temporary file over the target, replacing it
    /// (the fallback where the replace failed).
    MoveReplaceTarget,
    /// Atomically move the temporary file into place; there is no target yet.
    MoveIntoPlace,
    /// Flush the containing directory's metadata, as far as the platform
    /// needs and allows; the outcome does not count.
    FlushDirectory,
    /// Delete the temporary file; the outcome does not count.
    RemoveTemp { succeeded: bool },
    /// Nothing is left to do; the write succeeded or failed.
    Done { succeeded: bool },
}

/// The stage that follows `stage` once its step has run: `target_exists`
/// tells whether the target file exists at that moment, `ok` whether the
/// step succeeded.
pub open spec fn next_stage(stage: WriteStage, target_exists: bool, ok: bool) -> WriteStage {
    match stage {
        WriteStage::CreateTemp => if ok {
            WriteStage::WriteContent
        } else {
            WriteStage::RemoveTemp { succeeded: false }
        },
        WriteStage::WriteContent => if ok {
            WriteStage::FlushTemp
        } else {
            WriteStage::RemoveTemp { succeeded: false }
        },
        WriteStage::FlushTemp => if !ok {
            WriteStage::RemoveTemp { succeeded: false }
        } else if target_exists {
            WriteStage::ReplaceTarget
        } else {
            WriteStage::MoveIntoPlace
        },
        WriteStage::ReplaceTarget => if ok {
            WriteStage::FlushDirectory
        } else {
            WriteStage::MoveReplaceTarget
        },
        WriteStage::MoveReplaceTarget => if ok {
            WriteStage::FlushDirectory
        } else {
            WriteStage::RemoveTemp { succeeded: false }
        },
        WriteStage::MoveIntoPlace => if ok {
            WriteStage::FlushDirectory
        } else {
            WriteStage::RemoveTemp { succeeded: false }
        },
        WriteStage::FlushDirectory => WriteStage::RemoveTemp { succeeded: true },
        WriteStage::RemoveTemp { succeeded } => WriteStage::Done { succeeded },
        WriteStage::Done { succeeded } => WriteStage::Done { succeeded },
    }
}

/// The report of a swap whose replace and fallback move both failed.
pub open spec fn both_failed(replace_error: Seq<char>, move_error: Seq<char>) -> Seq<char> {
    "atomic replace failed ("@ + replace_error + "); move-with-replace failed ("@ + move_error
        + ")"@
}

/// The steps of a write whose target file shows, at any moment, either its
/// whole prior content or the whole new content: the content goes to a
/// temporary sibling, is flushed, and only then swapped in by one atomic step.
#[derive(Debug, Clone)]
pub struct DurableWrite {
    /// The step to perform next.
    pub stage: WriteStage,
    /// The error to report: what the replace reported while the fallback
    /// runs, and what made the write fail once it failed.
    pub error: String,
}

impl DurableWrite {
    /// A write that has not started.
    pub fn start() -> (r: DurableWrite)
        ensures
            r.stage == WriteStage::CreateTemp,
            r.error@.len() == 0,
    {
        DurableWrite { stage: WriteStage::CreateTemp, error: String::new() }
    }

    /// Takes in the outcome of the step that `self.stage` names and moves to
    /// the next one. `target_exists` tells whether the target file exists
    /// now; only the choice of the swap reads it.
    pub fn advance(self, target_exists: bool, outcome: Result<(), String>) -> (r: DurableWrite)
        ensures
            r.stage == next_stage(self.stage, target_exists, outcome is Ok),
            outcome is Err && self.stage is MoveReplaceTarget ==> r.error@ == both_failed(
                self.error@,
                outcome->Err_0@,
            ),
            outcome is Err && !(self.stage is MoveReplaceTarget) && !(self.stage is FlushDirectory)
                && !(self.stage is RemoveTemp) && !(self.stage is Done) ==> r.error@
                == outcome->Err_0@,
            outcome is Ok || self.stage is FlushDirectory || self.stage is RemoveTemp
                || self.stage is Done ==> r.error@ == self.error@,
    {
        match outcome {
            Ok(()) => {
                let stage = match self.stage {
                    WriteStage::CreateTemp => WriteStage::WriteContent,
                    WriteStage::WriteContent => WriteStage::FlushTemp,
                    WriteStage::FlushTemp => if target_exists {
                        WriteStage::ReplaceTarget
                    } else {
                        WriteStage::MoveIntoPlace
                    },
                    WriteStage::ReplaceTarget => WriteStage::FlushDirectory,
                    WriteStage::MoveReplaceTarget => WriteStage::FlushDirectory,
                    WriteStage::MoveIntoPlace => WriteStage::FlushDirectory,
                    WriteStage::FlushDirectory => WriteStage::RemoveTemp { succeeded: true },
                    WriteStage::RemoveTemp { succeeded } => WriteStage::Done { succeeded },
                    WriteStage::Done { succeeded } => WriteStage::Done { succeeded },
                };
                DurableWrite { stage, error: self.error }
            },
            Err(e) => match self.stage {
                WriteStage::ReplaceTarget => DurableWrite {
                    stage: WriteStage::MoveReplaceTarget,
                    error: e,
                },
                WriteStage::MoveReplaceTarget => {
                    let mut m = String::from_str("atomic replace failed (");
                    m.append(self.error.as_str());
                    m.append("); move-with-replace failed (");
                    m.append(e.as_str());
                    m.append(")");
                    DurableWrite { stage: WriteStage::RemoveTemp { succeeded: false }, error: m }
                },
                WriteStage::FlushDirectory => DurableWrite {
                    stage: WriteStage::RemoveTemp { succeeded: true },
                    error: self.error,
                },
                WriteStage::RemoveTemp { succeeded } => DurableWrite {
                    stage: WriteStage::Done { succeeded },
                    error: self.error,
                },
                WriteStage::Done { succeeded } => DurableWrite {
                    stage: WriteStage::Done { succeeded },
                    error: self.error,
                },
                _ => DurableWrite { stage: WriteStage::RemoveTemp { succeeded: false }, error: e },
            },
        }
    }

    /// What the write reports once it is done, `None` before.
    pub fn result(&self) -> (r: Option<Result<(), String>>)
        ensures
            !(self.stage is Done) ==> r is None,
            self.stage == (WriteStage::Done { succeeded: true }) ==> r == Some(
                Ok::<(), String>(()),
            ),
            self.stage == (WriteStage::Done { succeeded: false }) ==> r is Some && r->Some_0 is Err
                && r->Some_0->Err_0@ == self.error@,
    {
        match self.stage {
            WriteStage::Done { succeeded } => if succeeded {
                Some(Ok(()))
            } else {
                Some(Err(self.error.clone()))
            },
            _ => None,
        }
    }
}

/// The stage that a write reaches from `stage` after the steps whose
/// outcomes `events` lists in order: each event holds whether the target
/// existed and whether the step succeeded.
pub open spec fn stage_after(stage: WriteStage, events: Seq<(bool, bool)>) -> WriteStage
    decreases events.len(),
{
    if events.len() == 0 {
        stage
    } else {
        next_stage(stage_after(stage, events.drop_last()), events.last().0, events.last().1)
    }
}

/// The step of `stage` changes the target file.
pub open spec fn touches_target(stage: WriteStage) -> bool {
    stage is ReplaceTarget || stage is MoveReplaceTarget || stage is MoveIntoPlace
}

/// The first three steps of `events` (create, write and flush the temporary
/// file) succeeded.
pub open spec fn temp_complete(events: Seq<(bool, bool)>) -> bool {
    events.len() >= 3 && events[0].1 && events[1].1 && events[2].1
}

proof fn lemma_stages_from_start(events: Seq<(bool, bool)>)
    ensures
        ({
            let s = stage_after(WriteStage::CreateTemp, events);
            &&& s is CreateTemp ==> events.len() == 0
            &&& s is WriteContent ==> events.len() == 1 && events[0].1
            &&& s is FlushTemp ==> events.len() == 2 && events[0].1 && events[1].1
            &&& (touches_target(s) || s is FlushDirectory || s == (WriteStage::RemoveTemp {
                succeeded: true,
            }) || s == (WriteStage::Done { succeeded: true })) ==> temp_complete(events)
        }),
    decreases events.len(),
{
    if events.len() > 0 {
        let p = events.drop_last();
        lemma_stages_from_start(p);
        assert forall|i: int| 0 <= i < p.len() implies #[trigger] p[i] == events[i] by {}
    }
}

/// A write changes its target only by one atomic swap step, and reaches such
/// a step only once the temporary file was created, wholly written and
/// flushed: a write interrupted or failed before the swap leaves the target
/// with its prior content, and one that succeeds went through a swap.
pub proof fn swap_only_after_complete_temp(events: Seq<(bool, bool)>)
    ensures
        touches_target(stage_after(WriteStage::CreateTemp, events)) ==> temp_complete(events),
        stage_after(WriteStage::CreateTemp, events) == (WriteStage::Done { succeeded: true })
            ==> temp_complete(events),
        !temp_complete(events) ==> forall|k: int|
            0 <= k <= events.len() ==> !touches_target(
                #[trigger] stage_after(WriteStage::CreateTemp, events.take(k)),
            ),
{
    lemma_stages_from_start(events);
    assert forall|k: int| 0 <= k <= events.len() && !temp_complete(events) implies !touches_target(
        #[trigger] stage_after(WriteStage::CreateTemp, events.take(k)),
    ) by {
        lemma_stages_from_start(events.take(k));
        if k >= 3 {
            assert(events.take(k)[0] == events[0]);
            assert(events.take(k)[1] == events[1]);
            assert(events.take(k)[2] == events[2]);
        }
    }
}

proof fn lemma_done_within_seven(events: Seq<(bool, bool)>)
    ensures
        ({
            let s = stage_after(WriteStage::CreateTemp, events);
            &&& s is WriteContent ==> events.len() == 1
            &&& s is FlushTemp ==> events.len() == 2
            &&& (s is ReplaceTarget || s is MoveIntoPlace) ==> events.len() == 3
            &&& s is MoveReplaceTarget ==> events.len() == 4
            &&& s is FlushDirectory ==> 4 <= events.len() <= 5
            &&& s is RemoveTemp ==> 1 <= events.len() <= 6
            &&& s is CreateTemp ==> events.len() == 0
        }),
    decreases events.len(),
{
    if events.len() > 0 {
        lemma_done_within_seven(events.drop_last());
    }
}

/// Every write ends: after at most seven steps it is done, and it is done
/// only after a step that removed its temporary file.
pub proof fn write_ends_after_cleanup(events: Seq<(bool, bool)>)
    ensures
        events.len() >= 7 ==> stage_after(WriteStage::CreateTemp, events) is Done,
        stage_after(WriteStage::CreateTemp, events) is Done ==> exists|k: int|
            0 <= k < events.len() && #[trigger] stage_after(
                WriteStage::CreateTemp,
                events.take(k),
            ) is RemoveTemp,
    decreases events.len(),
{
    lemma_done_within_seven(events);
    if stage_after(WriteStage::CreateTemp, events) is Done {
        let p = events.drop_last();
        assert(events.take(p.len() as int) == p);
        if stage_after(WriteStage::CreateTemp, p) is Done {
            write_ends_after_cleanup(p);
            let k = choose|k: int|
                0 <= k < p.len() && #[trigger] stage_after(WriteStage::CreateTemp, p.take(k)) is RemoveTemp;
            assert(events.take(k) == p.take(k));
        }
    }
}

} // verus!
