//! The interprocess advisory lock: which calls are made to get it, in what
//! order, and what each answer leads to.
//!
//! Unix: `flock(2)` on the lock file. Windows: a named mutex. Other: no lock.

use vstd::prelude::*;

use crate::text::{decimal, join2, join4, u64_text};

verus! {

/// Advisory lockfile name, beside `managed-agents.json`.
pub const ADVISORY_LOCK_FILENAME: &'static str = "store-journal.lock";

/// The mutex name for a lock path that is not Unicode.
pub const FALLBACK_MUTEX: &'static str = "buzz-store-journal";

/// Which kind of lock the system offers.
#[derive(Debug, Clone, Copy)]
pub enum LockPlatform {
    Unix,
    Windows,
    Other,
}

/// A lock that is to be acquired: the texts of the anchor directory and of the
/// lock file in it, and the latter once more if its path is Unicode.
#[derive(Debug)]
pub struct LockJob {
    pub platform: LockPlatform,
    pub anchor: String,
    pub lock_file: String,
    pub lock_path: Option<String>,
}

/// What to do next to acquire the lock.
#[derive(Debug)]
pub enum LockAction {
    /// Create the anchor directory and those above it.
    CreateAnchorDir,
    /// Open the lock file, creating it but never truncating it.
    OpenLockFile,
    /// Lock the open file exclusively, blocking until that is possible.
    Flock,
    /// Create the mutex of this name, not owned.
    CreateMutex(String),
    /// Wait for the mutex without a time limit.
    WaitForMutex,
    /// Close the mutex's handle, then fail with this message.
    CloseMutex(String),
    /// The lock is held.
    Held,
    /// The lock was not acquired.
    Fail(String),
}

/// What an action came to.
#[derive(Debug)]
pub enum LockReply {
    /// The file system's answer.
    Io(Result<(), String>),
    /// What `flock` returned, and the text of the system's last error.
    Flock { ret: i32, error: String },
    /// What `CreateMutexW` returned.
    Handle { is_null: bool, is_invalid: bool },
    /// What `WaitForSingleObject` returned.
    Wait(u32),
    /// The handle is closed.
    Closed,
}

/// The characters that a mutex name may not hold.
pub open spec fn is_separator(c: char) -> bool {
    c == '\\' || c == '/' || c == ':'
}

/// A text with every separator replaced by a hyphen.
pub open spec fn hyphenated(s: Seq<char>) -> Seq<char> {
    s.map_values(
        |c: char|
            if is_separator(c) {
                '-'
            } else {
                c
            },
    )
}

/// The name of the mutex for a lock path.
pub open spec fn mutex_name_of(lock_path: Option<String>) -> Seq<char> {
    "Global\\"@ + hyphenated(
        match lock_path {
            Some(path) => path@,
            None => FALLBACK_MUTEX@,
        },
    )
}

/// `s` with every separator replaced by a hyphen.
fn hyphenate(s: &str) -> (res: String)
    ensures
        res@ == hyphenated(s@),
{
    let n: usize = s.unicode_len();
    let mut res = "".to_owned();
    proof {
        reveal_strlit("");
        reveal_strlit("-");
    }
    let mut i: usize = 0;
    assert(res@ =~= hyphenated(s@.take(0)));
    while i < n
        invariant
            i <= n == s@.len(),
            "-"@ == seq!['-'],
            res@ == hyphenated(s@.take(i as int)),
        decreases n - i,
    {
        let c: char = s.get_char(i);
        if c == '\\' || c == '/' || c == ':' {
            res.append("-");
        } else {
            let one = s.substring_char(i, i + 1);
            res.append(one);
        }
        i = i + 1;
        assert(res@ =~= hyphenated(s@.take(i as int)));
    }
    assert(s@.take(n as int) =~= s@);
    res
}

/// Derive the mutex name from the lock file path.
pub fn mutex_name(lock_path: &Option<String>) -> (res: String)
    ensures
        res@ == mutex_name_of(*lock_path),
{
    let path = match lock_path {
        Some(p) => hyphenate(p.as_str()),
        None => hyphenate(FALLBACK_MUTEX),
    };
    join2("Global\\", path.as_str())
}

/// Whether `reply` answers `at`.
pub open spec fn lock_fits(at: LockAction, reply: LockReply) -> bool {
    match at {
        LockAction::CreateAnchorDir | LockAction::OpenLockFile => reply is Io,
        LockAction::Flock => reply is Flock,
        LockAction::CreateMutex(_) => reply is Handle,
        LockAction::WaitForMutex => reply is Wait,
        LockAction::CloseMutex(_) => reply is Closed,
        LockAction::Held | LockAction::Fail(_) => false,
    }
}

/// `next` is to fail with `message`.
pub open spec fn lock_fails(next: LockAction, message: Seq<char>) -> bool {
    next matches LockAction::Fail(m) && m@ == message
}

/// `next` is what follows once `at` was answered with `reply`.
pub open spec fn lock_stepped(
    job: LockJob,
    at: LockAction,
    reply: LockReply,
    next: LockAction,
) -> bool {
    match (at, reply) {
        (LockAction::CreateAnchorDir, LockReply::Io(Err(e))) => lock_fails(
            next,
            "create anchor dir "@ + job.anchor@ + ": "@ + e@,
        ),
        (LockAction::CreateAnchorDir, LockReply::Io(Ok(_))) => match job.platform {
            LockPlatform::Unix => next is OpenLockFile,
            LockPlatform::Windows => next matches LockAction::CreateMutex(name) && name@
                == mutex_name_of(job.lock_path),
            LockPlatform::Other => next is Held,
        },
        (LockAction::OpenLockFile, LockReply::Io(Err(e))) => lock_fails(
            next,
            "open journal lock "@ + job.lock_file@ + ": "@ + e@,
        ),
        (LockAction::OpenLockFile, LockReply::Io(Ok(_))) => next is Flock,
        (LockAction::Flock, LockReply::Flock { ret, error }) => if ret == 0 {
            next is Held
        } else {
            lock_fails(next, "journal flock "@ + job.lock_file@ + ": "@ + error@)
        },
        (LockAction::CreateMutex(_), LockReply::Handle { is_null, is_invalid }) => if is_null
            || is_invalid {
            lock_fails(next, "CreateMutexW failed for journal lock"@)
        } else {
            next is WaitForMutex
        },
        (LockAction::WaitForMutex, LockReply::Wait(wait)) => if wait == 0 {
            next is Held
        } else {
            next matches LockAction::CloseMutex(m) && m@ == "WaitForSingleObject failed: "@
                + decimal(wait as nat)
        },
        (LockAction::CloseMutex(message), LockReply::Closed) => next == LockAction::Fail(message),
        _ => false,
    }
}

/// What to do next once `at` was answered with `reply`.
pub fn lock_step(job: &LockJob, at: LockAction, reply: LockReply) -> (next: LockAction)
    requires
        lock_fits(at, reply),
    ensures
        lock_stepped(*job, at, reply, next),
{
    match (at, reply) {
        (LockAction::CreateAnchorDir, LockReply::Io(Err(e))) => LockAction::Fail(
            join4("create anchor dir ", job.anchor.as_str(), ": ", e.as_str()),
        ),
        (LockAction::CreateAnchorDir, LockReply::Io(Ok(_))) => match job.platform {
            LockPlatform::Unix => LockAction::OpenLockFile,
            LockPlatform::Windows => LockAction::CreateMutex(mutex_name(&job.lock_path)),
            LockPlatform::Other => LockAction::Held,
        },
        (LockAction::OpenLockFile, LockReply::Io(Err(e))) => LockAction::Fail(
            join4("open journal lock ", job.lock_file.as_str(), ": ", e.as_str()),
        ),
        (LockAction::OpenLockFile, LockReply::Io(Ok(_))) => LockAction::Flock,
        (LockAction::Flock, LockReply::Flock { ret, error }) => if ret == 0 {
            LockAction::Held
        } else {
            LockAction::Fail(
                join4("journal flock ", job.lock_file.as_str(), ": ", error.as_str()),
            )
        },
        (LockAction::CreateMutex(_), LockReply::Handle { is_null, is_invalid }) => if is_null
            || is_invalid {
            LockAction::Fail("CreateMutexW failed for journal lock".to_owned())
        } else {
            LockAction::WaitForMutex
        },
        (LockAction::WaitForMutex, LockReply::Wait(wait)) => if wait == 0 {
            LockAction::Held
        } else {
            let code = u64_text(wait as u64);
            LockAction::CloseMutex(join2("WaitForSingleObject failed: ", code.as_str()))
        },
        (LockAction::CloseMutex(message), _) => LockAction::Fail(message),
        (last, _) => last,
    }
}

// ---- Laws ----------------------------------------------------------------

/// A run: the first action is to create the anchor directory, and each later
/// one follows from the reply to the one before it.
pub open spec fn lock_run(job: LockJob, actions: Seq<LockAction>, replies: Seq<LockReply>) -> bool {
    &&& actions.len() == replies.len() + 1
    &&& actions[0] is CreateAnchorDir
    &&& forall|i: int|
        0 <= i < replies.len() ==> lock_stepped(
            job,
            actions[i],
            #[trigger] replies[i],
            actions[i + 1],
        )
}

/// The lock is held only when the system granted it: the directory was created,
/// then, on Unix, the file was opened and `flock` returned zero, and on Windows
/// there was a valid handle and the wait for it returned zero.
pub proof fn law_held_means_granted(
    job: LockJob,
    actions: Seq<LockAction>,
    replies: Seq<LockReply>,
)
    requires
        lock_run(job, actions, replies),
        actions.last() is Held,
    ensures
        replies.len() > 0,
        replies[0] matches LockReply::Io(Ok(_)),
        job.platform is Unix ==> {
            &&& replies.len() == 3
            &&& replies[1] matches LockReply::Io(Ok(_))
            &&& replies[2] matches LockReply::Flock { ret, .. } && ret == 0
        },
        job.platform is Windows ==> {
            &&& replies.len() == 3
            &&& replies[1] == LockReply::Handle { is_null: false, is_invalid: false }
            &&& replies[2] == LockReply::Wait(0)
        },
        job.platform is Other ==> replies.len() == 1,
{
    lemma_lock_positions(job, actions, replies, (actions.len() - 1) as int);
}

/// A mutex that was created but not acquired is closed before the failure is
/// reported.
pub proof fn law_unacquired_mutex_is_closed(
    job: LockJob,
    actions: Seq<LockAction>,
    replies: Seq<LockReply>,
)
    requires
        lock_run(job, actions, replies),
        actions.last() is Fail,
        replies.len() > 1,
        replies[1] == (LockReply::Handle { is_null: false, is_invalid: false }),
    ensures
        actions.len() == 5,
        actions[3] is CloseMutex,
        actions[3]->CloseMutex_0 == actions[4]->Fail_0,
{
    lemma_lock_positions(job, actions, replies, (actions.len() - 1) as int);
    assert(lock_stepped(job, actions[0], replies[0], actions[1]));
    assert(lock_stepped(job, actions[1], replies[1], actions[2]));
    if replies.len() > 2 {
        assert(lock_stepped(job, actions[2], replies[2], actions[3]));
        if replies.len() > 3 {
            assert(lock_stepped(job, actions[3], replies[3], actions[4]));
            if replies.len() > 4 {
                assert(lock_stepped(job, actions[4], replies[4], actions[5]));
            }
        }
    }
}

/// Acquiring the lock takes at most four calls.
pub proof fn law_lock_takes_at_most_four_calls(
    job: LockJob,
    actions: Seq<LockAction>,
    replies: Seq<LockReply>,
)
    requires
        lock_run(job, actions, replies),
    ensures
        replies.len() <= 4,
{
    lemma_lock_positions(job, actions, replies, (actions.len() - 1) as int);
}

/// The name of a mutex holds no separator behind its prefix, and as many
/// characters as the path.
pub proof fn law_mutex_name_has_no_separator(lock_path: Option<String>)
    ensures
        forall|i: int|
            "Global\\"@.len() <= i < mutex_name_of(lock_path).len() ==> !is_separator(
                #[trigger] mutex_name_of(lock_path)[i],
            ),
        mutex_name_of(lock_path).take("Global\\"@.len() as int) == "Global\\"@,
        lock_path matches Some(path) ==> mutex_name_of(lock_path).len() == "Global\\"@.len()
            + path@.len(),
{
    assert(mutex_name_of(lock_path).take("Global\\"@.len() as int) =~= "Global\\"@);
}

/// Two paths share a mutex only where they differ in nothing but separators and
/// hyphens.
pub proof fn law_mutex_tells_paths_apart(first: String, second: String)
    requires
        mutex_name_of(Some(first)) == mutex_name_of(Some(second)),
    ensures
        first@.len() == second@.len(),
        forall|i: int|
            0 <= i < first@.len() && #[trigger] first@[i] != second@[i] ==> (is_separator(first@[i])
                || first@[i] == '-') && (is_separator(second@[i]) || second@[i] == '-'),
{
    let prefix = "Global\\"@;
    assert(mutex_name_of(Some(first)).skip(prefix.len() as int) =~= hyphenated(first@));
    assert(mutex_name_of(Some(second)).skip(prefix.len() as int) =~= hyphenated(second@));
    assert forall|i: int| 0 <= i < first@.len() && #[trigger] first@[i] != second@[i] implies (
    is_separator(first@[i]) || first@[i] == '-') && (is_separator(second@[i]) || second@[i]
        == '-') by {
        assert(hyphenated(first@)[i] == hyphenated(second@)[i]);
    }
}

/// Where in a run an action may stand, and what came before it.
proof fn lemma_lock_positions(
    job: LockJob,
    actions: Seq<LockAction>,
    replies: Seq<LockReply>,
    k: int,
)
    requires
        lock_run(job, actions, replies),
        0 <= k < actions.len(),
    ensures
        k > 0 && actions[k] !is Fail ==> replies[0] matches LockReply::Io(Ok(_)),
        match actions[k] {
            LockAction::CreateAnchorDir => k == 0,
            LockAction::OpenLockFile => k == 1 && job.platform is Unix,
            LockAction::Flock => k == 2 && job.platform is Unix && (replies[1] matches LockReply::Io(
                Ok(_),
            )),
            LockAction::CreateMutex(_) => k == 1 && job.platform is Windows,
            LockAction::WaitForMutex => k == 2 && job.platform is Windows && replies[1]
                == (LockReply::Handle { is_null: false, is_invalid: false }),
            LockAction::CloseMutex(_) => k == 3 && job.platform is Windows,
            LockAction::Held => match job.platform {
                LockPlatform::Unix => k == 3 && (replies[1] matches LockReply::Io(Ok(_))) && (
                replies[2] matches LockReply::Flock { ret, .. } && ret == 0),
                LockPlatform::Windows => k == 3 && replies[1] == (LockReply::Handle {
                    is_null: false,
                    is_invalid: false,
                }) && replies[2] == LockReply::Wait(0),
                LockPlatform::Other => k == 1,
            },
            LockAction::Fail(_) => 1 <= k <= 4,
        },
    decreases k,
{
    if k > 0 {
        lemma_lock_positions(job, actions, replies, k - 1);
        assert(lock_stepped(job, actions[k - 1], replies[k - 1], actions[k]));
    }
}

/// A lock that the system grants is held: on Unix once the directory was created,
/// the file opened and `flock` returned zero, on Windows once there is a valid
/// handle and the wait returned zero, and elsewhere once there is the directory.
pub proof fn law_granted_means_held(
    job: LockJob,
    actions: Seq<LockAction>,
    replies: Seq<LockReply>,
)
    requires
        lock_run(job, actions, replies),
        replies.len() > 0,
        replies[0] matches LockReply::Io(Ok(_)),
        job.platform is Unix ==> replies.len() == 3 && (replies[1] matches LockReply::Io(Ok(_)))
            && (replies[2] matches LockReply::Flock { ret, .. } && ret == 0),
        job.platform is Windows ==> replies.len() == 3 && replies[1] == (LockReply::Handle {
            is_null: false,
            is_invalid: false,
        }) && replies[2] == LockReply::Wait(0),
        job.platform is Other ==> replies.len() == 1,
    ensures
        actions.last() is Held,
{
    assert(lock_stepped(job, actions[0], replies[0], actions[1]));
    if replies.len() == 3 {
        assert(lock_stepped(job, actions[1], replies[1], actions[2]));
        assert(lock_stepped(job, actions[2], replies[2], actions[3]));
    }
}

/// A lock that is not acquired is reported with the call that failed, the path
/// and the reason, and fails for no other reason.
pub proof fn law_lock_failure_names_its_call(
    job: LockJob,
    actions: Seq<LockAction>,
    replies: Seq<LockReply>,
    message: String,
)
    requires
        lock_run(job, actions, replies),
        actions.last() == LockAction::Fail(message),
    ensures
        replies.len() == 1 ==> (replies[0] matches LockReply::Io(Err(e)) && message@
            == "create anchor dir "@ + job.anchor@ + ": "@ + e@),
        replies.len() == 2 ==> {
            ||| job.platform is Unix && (replies[1] matches LockReply::Io(Err(e)) && message@
                == "open journal lock "@ + job.lock_file@ + ": "@ + e@)
            ||| job.platform is Windows && (replies[1] matches LockReply::Handle {
                is_null,
                is_invalid,
            } && (is_null || is_invalid)) && message@ == "CreateMutexW failed for journal lock"@
        },
        replies.len() == 3 ==> job.platform is Unix && (replies[2] matches LockReply::Flock {
            ret,
            error,
        } && ret != 0 && message@ == "journal flock "@ + job.lock_file@ + ": "@ + error@),
        replies.len() == 4 ==> job.platform is Windows && (replies[2] matches LockReply::Wait(wait)
            && wait != 0 && message@ == "WaitForSingleObject failed: "@ + decimal(wait as nat)),
        1 <= replies.len() <= 4,
{
    let last: int = actions.len() - 1;
    lemma_lock_positions(job, actions, replies, last);
    lemma_lock_positions(job, actions, replies, last - 1);
    assert(lock_stepped(job, actions[last - 1], replies[last - 1], actions[last]));
    if last > 1 {
        lemma_lock_positions(job, actions, replies, last - 2);
        assert(lock_stepped(job, actions[last - 2], replies[last - 2], actions[last - 1]));
    }
}

/// The mutex is named after the lock path, character by character: separators are
/// hyphens and all else is as it is. A path that is not Unicode has a name of its
/// own. The mutex that is created bears that name.
pub proof fn law_mutex_is_named_after_the_path(
    job: LockJob,
    actions: Seq<LockAction>,
    replies: Seq<LockReply>,
    path: String,
    i: int,
)
    ensures
        0 <= i < path@.len() ==> {
            let c = mutex_name_of(Some(path))["Global\\"@.len() + i];
            if path@[i] == '\\' || path@[i] == '/' || path@[i] == ':' {
                c == '-'
            } else {
                c == path@[i]
            }
        },
        mutex_name_of(None) == "Global\\"@ + "buzz-store-journal"@,
        lock_run(job, actions, replies) && 0 <= i < actions.len() ==> (
        actions[i] matches LockAction::CreateMutex(name) ==> name@ == mutex_name_of(job.lock_path)),
{
    reveal_strlit("buzz-store-journal");
    assert(hyphenated("buzz-store-journal"@) =~= "buzz-store-journal"@);
    if lock_run(job, actions, replies) && 0 < i < actions.len() {
        lemma_lock_positions(job, actions, replies, i);
        assert(lock_stepped(job, actions[i - 1], replies[i - 1], actions[i]));
    }
}

} // verus!
