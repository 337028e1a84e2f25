//! Replacing a file of the store: which steps are taken, in what order, and what
//! each answer leads to.
//!
//! A file is never written in place. The payload goes to a temporary file, is
//! synced, and only then takes the place of the target.

use vstd::prelude::*;

use crate::text::{join3, join4};

verus! {

/// Extension of the temporary file of a plain write.
pub const TEMP_EXTENSION: &'static str = "json.tmp";

/// Permissions of a restricted file: for its owner alone.
pub const RESTRICTED_MODE: u32 = 0o600;

/// How a file is replaced.
#[derive(Debug, Clone, Copy)]
pub enum WriteMode {
    /// Temporary file, fsync, rename, fsync of the parent directory.
    Plain,
    /// The same with permissions for the owner alone; the rename and the fsyncs
    /// are one commit.
    Restricted,
}

/// A file that is to be replaced: the texts of the target, its symlinks
/// resolved, and of the temporary file beside it.
#[derive(Debug)]
pub struct WriteJob {
    pub mode: WriteMode,
    pub on_unix: bool,
    pub target: String,
    pub temp: String,
}

/// What to do next.
#[derive(Debug)]
pub enum WriteAction {
    /// Open the temporary file.
    Open,
    /// Restrict the temporary file's permissions.
    SetPermissions,
    /// Write the payload to the temporary file.
    WritePayload,
    /// Sync (plain) or flush (restricted) the temporary file.
    Sync,
    /// Rename (plain) or commit (restricted) the temporary file to the target.
    Replace,
    /// Sync the parent directory, as far as the system lets it.
    SyncParent,
    /// The target holds the payload.
    Done,
    /// The target was not replaced.
    Fail(String),
}

/// Whether there is nothing more to do.
pub open spec fn write_is_over(at: WriteAction) -> bool {
    at is Done || at is Fail
}

/// `next` is to fail with `message`.
pub open spec fn write_fails(next: WriteAction, message: Seq<char>) -> bool {
    next matches WriteAction::Fail(m) && m@ == message
}

/// The text of the file that errors of writing and syncing name.
pub open spec fn written_file(job: WriteJob) -> Seq<char> {
    match job.mode {
        WriteMode::Plain => job.temp@,
        WriteMode::Restricted => job.target@,
    }
}

/// `next` is what follows once `at` was answered with `reply`.
pub open spec fn write_stepped(
    job: WriteJob,
    at: WriteAction,
    reply: Result<(), String>,
    next: WriteAction,
) -> bool {
    match (at, reply) {
        (WriteAction::Open, Err(e)) => match job.mode {
            WriteMode::Plain => write_fails(next, "create "@ + job.temp@ + ": "@ + e@),
            WriteMode::Restricted => write_fails(
                next,
                "open "@ + job.target@ + " for atomic write: "@ + e@,
            ),
        },
        (WriteAction::Open, Ok(_)) => if job.mode is Restricted && job.on_unix {
            next is SetPermissions
        } else {
            next is WritePayload
        },
        (WriteAction::SetPermissions, Err(e)) => write_fails(
            next,
            "set "@ + job.target@ + " permissions: "@ + e@,
        ),
        (WriteAction::SetPermissions, Ok(_)) => next is WritePayload,
        (WriteAction::WritePayload, Err(e)) => write_fails(
            next,
            "write "@ + written_file(job) + ": "@ + e@,
        ),
        (WriteAction::WritePayload, Ok(_)) => next is Sync,
        (WriteAction::Sync, Err(e)) => match job.mode {
            WriteMode::Plain => write_fails(next, "fsync "@ + job.temp@ + ": "@ + e@),
            WriteMode::Restricted => write_fails(next, "flush "@ + job.target@ + ": "@ + e@),
        },
        (WriteAction::Sync, Ok(_)) => next is Replace,
        (WriteAction::Replace, Err(e)) => match job.mode {
            WriteMode::Plain => write_fails(
                next,
                "rename "@ + job.temp@ + " → "@ + (job.target@ + ": "@ + e@),
            ),
            WriteMode::Restricted => write_fails(next, "commit "@ + job.target@ + ": "@ + e@),
        },
        (WriteAction::Replace, Ok(_)) => if job.mode is Plain && job.on_unix {
            next is SyncParent
        } else {
            next is Done
        },
        (WriteAction::SyncParent, _) => next is Done,
        _ => false,
    }
}

/// What to do next once `at` was answered with `reply`.
pub fn write_step(job: &WriteJob, at: WriteAction, reply: Result<(), String>) -> (next: WriteAction)
    requires
        !write_is_over(at),
    ensures
        write_stepped(*job, at, reply, next),
{
    let plain: bool = match job.mode {
        WriteMode::Plain => true,
        WriteMode::Restricted => false,
    };
    let target = job.target.as_str();
    let temp = job.temp.as_str();
    match (at, reply) {
        (WriteAction::Open, Err(e)) => WriteAction::Fail(
            if plain {
                join4("create ", temp, ": ", e.as_str())
            } else {
                join4("open ", target, " for atomic write: ", e.as_str())
            },
        ),
        (WriteAction::Open, Ok(_)) => if !plain && job.on_unix {
            WriteAction::SetPermissions
        } else {
            WriteAction::WritePayload
        },
        (WriteAction::SetPermissions, Err(e)) => WriteAction::Fail(
            join4("set ", target, " permissions: ", e.as_str()),
        ),
        (WriteAction::SetPermissions, Ok(_)) => WriteAction::WritePayload,
        (WriteAction::WritePayload, Err(e)) => WriteAction::Fail(
            join4(
                "write ",
                if plain {
                    temp
                } else {
                    target
                },
                ": ",
                e.as_str(),
            ),
        ),
        (WriteAction::WritePayload, Ok(_)) => WriteAction::Sync,
        (WriteAction::Sync, Err(e)) => WriteAction::Fail(
            if plain {
                join4("fsync ", temp, ": ", e.as_str())
            } else {
                join4("flush ", target, ": ", e.as_str())
            },
        ),
        (WriteAction::Sync, Ok(_)) => WriteAction::Replace,
        (WriteAction::Replace, Err(e)) => WriteAction::Fail(
            if plain {
                let end = join3(target, ": ", e.as_str());
                join4("rename ", temp, " → ", end.as_str())
            } else {
                join4("commit ", target, ": ", e.as_str())
            },
        ),
        (WriteAction::Replace, Ok(_)) => if plain && job.on_unix {
            WriteAction::SyncParent
        } else {
            WriteAction::Done
        },
        (WriteAction::SyncParent, _) => WriteAction::Done,
        (over, _) => over,
    }
}

// ---- Laws ----------------------------------------------------------------

/// A run: the first action is to open the temporary file, and each later one
/// follows from the reply to the one before it.
pub open spec fn write_run(
    job: WriteJob,
    actions: Seq<WriteAction>,
    replies: Seq<Result<(), String>>,
) -> bool {
    &&& actions.len() == replies.len() + 1
    &&& actions[0] is Open
    &&& forall|i: int|
        0 <= i < replies.len() ==> write_stepped(
            job,
            actions[i],
            #[trigger] replies[i],
            actions[i + 1],
        )
}

/// How many steps come before the payload is written.
pub open spec fn steps_before_payload(job: WriteJob) -> int {
    if job.mode is Restricted && job.on_unix {
        2
    } else {
        1
    }
}

/// The target is replaced only after the payload was written to the temporary
/// file and synced, without an error on the way.
pub proof fn law_replaced_only_by_synced_payload(
    job: WriteJob,
    actions: Seq<WriteAction>,
    replies: Seq<Result<(), String>>,
    k: int,
)
    requires
        write_run(job, actions, replies),
        0 <= k < actions.len(),
        actions[k] is Replace,
    ensures
        k >= 3,
        actions[k - 2] is WritePayload,
        actions[k - 1] is Sync,
        forall|i: int| 0 <= i < k ==> #[trigger] replies[i] is Ok,
{
    lemma_write_positions(job, actions, replies, k);
    lemma_write_positions(job, actions, replies, k - 1);
    lemma_write_positions(job, actions, replies, k - 2);
    assert(write_stepped(job, actions[k - 1], replies[k - 1], actions[k]));
    assert(write_stepped(job, actions[k - 2], replies[k - 2], actions[k - 1]));
}

/// On Unix a restricted payload is written only after the file's permissions
/// were restricted.
pub proof fn law_restricted_before_payload(
    job: WriteJob,
    actions: Seq<WriteAction>,
    replies: Seq<Result<(), String>>,
    k: int,
)
    requires
        write_run(job, actions, replies),
        job.mode is Restricted,
        job.on_unix,
        0 <= k < actions.len(),
        actions[k] is WritePayload,
    ensures
        k > 0,
        actions[k - 1] is SetPermissions,
        replies[k - 1] is Ok,
{
    lemma_write_positions(job, actions, replies, k);
    lemma_write_positions(job, actions, replies, k - 1);
    assert(write_stepped(job, actions[k - 1], replies[k - 1], actions[k]));
}

/// A write that is done has replaced the target, and one that failed has not:
/// the last reply was the error, and no replacement was answered with success.
pub proof fn law_done_means_replaced(
    job: WriteJob,
    actions: Seq<WriteAction>,
    replies: Seq<Result<(), String>>,
)
    requires
        write_run(job, actions, replies),
    ensures
        actions.last() is Done ==> exists|k: int|
            0 <= k < replies.len() && actions[k] is Replace && #[trigger] replies[k] is Ok,
        actions.last() is Fail ==> {
            &&& replies.len() > 0
            &&& replies.last() is Err
            &&& forall|k: int|
                0 <= k < replies.len() && actions[k] is Replace ==> #[trigger] replies[k] is Err
        },
{
    let last: int = actions.len() - 1;
    lemma_write_positions(job, actions, replies, last);
    if last > 0 {
        lemma_write_positions(job, actions, replies, last - 1);
        assert(write_stepped(job, actions[last - 1], replies[last - 1], actions[last]));
        if last > 1 {
            lemma_write_positions(job, actions, replies, last - 2);
            assert(write_stepped(job, actions[last - 2], replies[last - 2], actions[last - 1]));
        }
    }
    if actions.last() is Fail {
        assert forall|k: int| 0 <= k < replies.len() && actions[k] is Replace implies #[trigger] replies[k] is Err by {
            lemma_write_positions(job, actions, replies, k);
            assert(write_stepped(job, actions[k], replies[k], actions[k + 1]));
            if k + 1 < last {
                lemma_write_positions(job, actions, replies, k + 1);
                assert(write_stepped(job, actions[k + 1], replies[k + 1], actions[k + 2]));
                if k + 2 < last {
                    assert(write_stepped(job, actions[k + 2], replies[k + 2], actions[k + 3]));
                }
            }
        }
    }
}

/// A write takes at most five steps.
pub proof fn law_write_takes_at_most_five_steps(
    job: WriteJob,
    actions: Seq<WriteAction>,
    replies: Seq<Result<(), String>>,
)
    requires
        write_run(job, actions, replies),
    ensures
        replies.len() <= 5,
{
    lemma_write_positions(job, actions, replies, actions.len() - 1);
}

/// Where in a run an action stands, and that no error came before it.
proof fn lemma_write_positions(
    job: WriteJob,
    actions: Seq<WriteAction>,
    replies: Seq<Result<(), String>>,
    k: int,
)
    requires
        write_run(job, actions, replies),
        0 <= k < actions.len(),
    ensures
        !write_is_over(actions[k]) ==> forall|i: int| 0 <= i < k ==> #[trigger] replies[i] is Ok,
        match actions[k] {
            WriteAction::Open => k == 0,
            WriteAction::SetPermissions => k == 1 && steps_before_payload(job) == 2,
            WriteAction::WritePayload => k == steps_before_payload(job),
            WriteAction::Sync => k == steps_before_payload(job) + 1,
            WriteAction::Replace => k == steps_before_payload(job) + 2,
            WriteAction::SyncParent => k == 4 && job.mode is Plain && job.on_unix,
            WriteAction::Done => 1 <= k <= 5,
            WriteAction::Fail(_) => 1 <= k <= 5,
        },
    decreases k,
{
    if k > 0 {
        lemma_write_positions(job, actions, replies, k - 1);
        assert(write_stepped(job, actions[k - 1], replies[k - 1], actions[k]));
    }
}

/// A write on which nothing fails never fails, and is done once its steps are
/// taken: open, on Unix the permissions of a restricted file, the payload, the
/// sync, the replacement, and on Unix the sync of a plain file's parent.
pub proof fn law_untroubled_write_is_done(
    job: WriteJob,
    actions: Seq<WriteAction>,
    replies: Seq<Result<(), String>>,
)
    requires
        write_run(job, actions, replies),
        forall|i: int| 0 <= i < replies.len() ==> #[trigger] replies[i] is Ok,
    ensures
        actions.last() !is Fail,
        actions.last() is Done <==> replies.len() == if job.on_unix {
            5int
        } else {
            4
        },
        replies.len() > 1 && job.mode is Restricted && job.on_unix ==> actions[1]
            is SetPermissions,
        replies.len() > 1 && !(job.mode is Restricted && job.on_unix) ==> actions[1]
            is WritePayload,
{
    lemma_untroubled(job, actions, replies, actions.len() - 1);
    if actions.len() > 1 {
        lemma_untroubled(job, actions, replies, 1);
    }
}

/// The actions of a write on which nothing fails.
proof fn lemma_untroubled(
    job: WriteJob,
    actions: Seq<WriteAction>,
    replies: Seq<Result<(), String>>,
    k: int,
)
    requires
        write_run(job, actions, replies),
        forall|i: int| 0 <= i < replies.len() ==> #[trigger] replies[i] is Ok,
        0 <= k < actions.len(),
    ensures
        ({
            let p = steps_before_payload(job);
            &&& k <= p + 4
            &&& k == 0 ==> actions[k] is Open
            &&& k == 1 && p == 2 ==> actions[k] is SetPermissions
            &&& k == p ==> actions[k] is WritePayload
            &&& k == p + 1 ==> actions[k] is Sync
            &&& k == p + 2 ==> actions[k] is Replace
            &&& k == p + 3 ==> if job.mode is Plain && job.on_unix {
                actions[k] is SyncParent
            } else {
                actions[k] is Done
            }
            &&& k == p + 4 ==> job.mode is Plain && job.on_unix && actions[k] is Done
        }),
    decreases k,
{
    if k > 0 {
        lemma_untroubled(job, actions, replies, k - 1);
        assert(write_stepped(job, actions[k - 1], replies[k - 1], actions[k]));
    }
}

/// A write that fails names the step, the file and the reason.
pub proof fn law_write_failure_names_its_step(
    job: WriteJob,
    actions: Seq<WriteAction>,
    replies: Seq<Result<(), String>>,
    message: String,
)
    requires
        write_run(job, actions, replies),
        actions.last() == WriteAction::Fail(message),
    ensures
        replies.len() > 0,
        replies.last() matches Err(e) && {
            let at = actions[actions.len() - 2];
            let plain = job.mode is Plain;
            &&& at is Open && plain ==> message@ == "create "@ + job.temp@ + ": "@ + e@
            &&& at is Open && !plain ==> message@ == "open "@ + job.target@
                + " for atomic write: "@ + e@
            &&& at is SetPermissions ==> message@ == "set "@ + job.target@ + " permissions: "@ + e@
            &&& at is WritePayload && plain ==> message@ == "write "@ + job.temp@ + ": "@ + e@
            &&& at is WritePayload && !plain ==> message@ == "write "@ + job.target@ + ": "@ + e@
            &&& at is Sync && plain ==> message@ == "fsync "@ + job.temp@ + ": "@ + e@
            &&& at is Sync && !plain ==> message@ == "flush "@ + job.target@ + ": "@ + e@
            &&& at is Replace && plain ==> message@ == "rename "@ + job.temp@ + " → "@ + (
            job.target@ + ": "@ + e@)
            &&& at is Replace && !plain ==> message@ == "commit "@ + job.target@ + ": "@ + e@
            &&& at !is SyncParent && at !is Done && at !is Fail
        },
{
    let last: int = actions.len() - 1;
    lemma_write_positions(job, actions, replies, last);
    assert(write_stepped(job, actions[last - 1], replies[last - 1], actions[last]));
}

} // verus!
