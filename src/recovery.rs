use vstd::prelude::*;
use crate::entry::Entry;

verus! {

/// What a collection's file held when it was read.
#[derive(Debug)]
pub enum FileContent {
    /// There is no file yet.
    Missing,
    /// The file held a well-formed list of entries.
    Parsed(Vec<Entry>),
    /// The file's content is not a well-formed list of entries.
    Unparsable,
}

/// The entries that a load hands on, and whether the file must first be set
/// aside as a corrupt backup. A missing file holds no entries; a corrupt
/// one counts as empty, once backed up, and is never an error.
pub fn loaded(content: FileContent) -> (r: (Vec<Entry>, bool))
    ensures
        content is Parsed ==> r.0@ == content->Parsed_0@ && !r.1,
        content is Missing ==> r.0@.len() == 0 && !r.1,
        content is Unparsable ==> r.0@.len() == 0 && r.1,
{
    match content {
        FileContent::Missing => (Vec::new(), false),
        FileContent::Parsed(v) => (v, false),
        FileContent::Unparsable => (Vec::new(), true),
    }
}

/// Where the backup of a corrupt file stands. The caller performs the step
/// that the stage names, then reports whether it succeeded to
/// [`next_backup_step`].
#[derive(Debug, Clone, Copy, PartialEq, Eq, Structural)]
pub enum BackupStage {
    /// Rename the corrupt file to its backup name.
    RenameToBackup,
    /// Read the corrupt file's content (the rename failed).
    ReadOriginal,
    /// Write the content that was read to the backup name.
    WriteCopy,
    /// Delete the corrupt file, now that its copy exists; the outcome does
    /// not count.
    RemoveOriginal,
    /// Nothing is left to do; `backed_up` tells whether a backup exists.
    Done { backed_up: bool },
}

/// The stage that follows `stage` once its step ran, `ok` telling whether
/// it succeeded.
pub open spec fn next_backup_stage(stage: BackupStage, ok: bool) -> BackupStage {
    match stage {
        BackupStage::RenameToBackup => if ok {
            BackupStage::Done { backed_up: true }
        } else {
            BackupStage::ReadOriginal
        },
        BackupStage::ReadOriginal => if ok {
            BackupStage::WriteCopy
        } else {
            BackupStage::Done { backed_up: false }
        },
        BackupStage::WriteCopy => if ok {
            BackupStage::RemoveOriginal
        } else {
            BackupStage::Done { backed_up: false }
        },
        BackupStage::RemoveOriginal => BackupStage::Done { backed_up: true },
        BackupStage::Done { backed_up } => BackupStage::Done { backed_up },
    }
}

/// Moves the backup of a corrupt file on: first a rename to the backup
/// name; where that fails, a copy through read and write, then the removal
/// of the original; where the copy fails, the backup is given up.
pub fn next_backup_step(stage: BackupStage, ok: bool) -> (r: BackupStage)
    ensures
        r == next_backup_stage(stage, ok),
{
    match stage {
        BackupStage::RenameToBackup => if ok {
            BackupStage::Done { backed_up: true }
        } else {
            BackupStage::ReadOriginal
        },
        BackupStage::ReadOriginal => if ok {
            BackupStage::WriteCopy
        } else {
            BackupStage::Done { backed_up: false }
        },
        BackupStage::WriteCopy => if ok {
            BackupStage::RemoveOriginal
        } else {
            BackupStage::Done { backed_up: false }
        },
        BackupStage::RemoveOriginal => BackupStage::Done { backed_up: true },
        BackupStage::Done { backed_up } => BackupStage::Done { backed_up },
    }
}

/// The stage that a backup reaches from `stage` after steps whose outcomes
/// `events` lists in order.
pub open spec fn backup_stage_after(stage: BackupStage, events: Seq<bool>) -> BackupStage
    decreases events.len(),
{
    if events.len() == 0 {
        stage
    } else {
        next_backup_stage(backup_stage_after(stage, events.drop_last()), events.last())
    }
}

/// The step of `stage`, where it succeeds, creates the backup file.
pub open spec fn creates_backup(stage: BackupStage) -> bool {
    stage is RenameToBackup || stage is WriteCopy
}

/// Step `k` of `events` ran and created the backup file.
pub open spec fn made_backup(events: Seq<bool>, k: int) -> bool {
    &&& 0 <= k < events.len()
    &&& creates_backup(backup_stage_after(BackupStage::RenameToBackup, events.take(k)))
    &&& events[k]
}

proof fn lemma_backup_stages(events: Seq<bool>)
    ensures
        ({
            let s = backup_stage_after(BackupStage::RenameToBackup, events);
            &&& s is RenameToBackup ==> events.len() == 0
            &&& s is ReadOriginal ==> events.len() == 1 && !events[0]
            &&& s is WriteCopy ==> events.len() == 2 && !events[0] && events[1]
            &&& s is RemoveOriginal ==> events.len() == 3 && !events[0] && events[1] && events[2]
            &&& s == (BackupStage::Done { backed_up: true }) ==> (events[0] || (
            events.len() >= 3 && events[1] && events[2]))
            &&& s == (BackupStage::Done { backed_up: true }) ==> events.len() >= 1
            &&& s == (BackupStage::Done { backed_up: false }) ==> events.len() >= 2 && !events[0]
                && (!events[1] || (events.len() >= 3 && !events[2]))
        }),
    decreases events.len(),
{
    if events.len() > 0 {
        let p = events.drop_last();
        lemma_backup_stages(p);
        assert forall|i: int| 0 <= i < p.len() implies #[trigger] p[i] == events[i] by {}
    }
}

proof fn lemma_backup_prefix(events: Seq<bool>, k: int)
    requires
        0 <= k <= events.len(),
    ensures
        k == 0 ==> backup_stage_after(BackupStage::RenameToBackup, events.take(k)) is RenameToBackup,
        k == 2 && !events[0] && events[1] ==> backup_stage_after(
            BackupStage::RenameToBackup,
            events.take(k),
        ) is WriteCopy,
        creates_backup(backup_stage_after(BackupStage::RenameToBackup, events.take(k))) ==> k == 0
            || (k == 2 && !events[0] && events[1]),
{
    let t = events.take(k);
    lemma_backup_stages(t);
    assert forall|i: int| 0 <= i < t.len() implies #[trigger] t[i] == events[i] by {}
    if k == 2 && !events[0] && events[1] {
        assert(t.drop_last().drop_last() =~= Seq::<bool>::empty());
    }
    if k == 0 {
        assert(t =~= Seq::<bool>::empty());
    }
}

/// A backup run creates at most one backup file, and it ends with a backup
/// exactly where one of its steps created it: the rename, or the copy after
/// a failed rename.
pub proof fn at_most_one_backup(events: Seq<bool>)
    ensures
        forall|k1: int, k2: int|
            made_backup(events, k1) && made_backup(events, k2) ==> k1 == k2,
        backup_stage_after(BackupStage::RenameToBackup, events) == (BackupStage::Done {
            backed_up: true,
        }) ==> exists|k: int| made_backup(events, k),
        backup_stage_after(BackupStage::RenameToBackup, events) == (BackupStage::Done {
            backed_up: false,
        }) ==> forall|k: int| !made_backup(events, k),
{
    lemma_backup_stages(events);
    assert forall|k1: int, k2: int|
        made_backup(events, k1) && made_backup(events, k2) implies k1 == k2 by {
        lemma_backup_prefix(events, k1);
        lemma_backup_prefix(events, k2);
    }
    let s = backup_stage_after(BackupStage::RenameToBackup, events);
    if s == (BackupStage::Done { backed_up: true }) {
        lemma_backup_prefix(events, 0);
        if !events[0] {
            lemma_backup_prefix(events, 2);
            assert(made_backup(events, 2));
        } else {
            assert(made_backup(events, 0));
        }
    }
    if s == (BackupStage::Done { backed_up: false }) {
        assert forall|k: int| !made_backup(events, k) by {
            if 0 <= k < events.len() {
                lemma_backup_prefix(events, k);
            }
        }
    }
}

} // verus!
