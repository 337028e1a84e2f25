//! Where the store's lock and journal stand.
//!
//! The anchor is the directory whose lock and journal every process of one
//! store family shares: the canonical dev `agents/` dir for shared worktrees,
//! the bundle's own `agents/` dir otherwise. It is computed from paths alone;
//! whether anything exists there plays no part.

use vstd::prelude::*;

use crate::text::{join2, same_text};

verus! {

/// Name of the data directory that shared dev worktrees have in common.
pub const CANONICAL_DEV_IDENTIFIER: &'static str = "xyz.block.buzz.app.dev";

/// Name of the directory that holds the store.
pub const AGENTS_DIR: &'static str = "agents";

/// One component of a path.
#[derive(Debug)]
pub enum PathPart {
    /// The root, or a prefix before it.
    Root,
    /// `.` or `..`.
    Dots,
    /// A name.
    Name(String),
    /// A name that is not valid Unicode.
    Foreign,
}

/// One component of a path, by what it holds.
pub enum Part {
    Root,
    Dots,
    Name(Seq<char>),
    Foreign,
}

impl View for PathPart {
    type V = Part;

    open spec fn view(&self) -> Part {
        match self {
            PathPart::Root => Part::Root,
            PathPart::Dots => Part::Dots,
            PathPart::Name(n) => Part::Name(n@),
            PathPart::Foreign => Part::Foreign,
        }
    }
}

impl PathPart {
    fn copy(&self) -> (res: Self)
        ensures
            res@ == self@,
    {
        match self {
            PathPart::Root => PathPart::Root,
            PathPart::Dots => PathPart::Dots,
            PathPart::Name(n) => PathPart::Name(n.clone()),
            PathPart::Foreign => PathPart::Foreign,
        }
    }
}

/// A path as the row of its components.
#[derive(Debug)]
pub struct DirPath {
    pub parts: Vec<PathPart>,
}

impl View for DirPath {
    type V = Seq<Part>;

    open spec fn view(&self) -> Seq<Part> {
        self.parts@.map_values(|p: PathPart| p@)
    }
}

/// The path without its last component. A root has no parent, nor has a path
/// without components.
pub open spec fn parent(path: Seq<Part>) -> Option<Seq<Part>> {
    if path.len() > 0 && path.last() !is Root {
        Some(path.drop_last())
    } else {
        None
    }
}

/// The last component of a path, if it is a name in Unicode.
pub open spec fn file_name(path: Seq<Part>) -> Option<Seq<char>> {
    if path.len() > 0 {
        match path.last() {
            Part::Name(n) => Some(n),
            _ => None,
        }
    } else {
        None
    }
}

/// What stands above an `agents/` dir: the parent of the data directory, and
/// the data directory's name.
pub open spec fn data_dir_of(local_agents: Seq<Part>) -> Option<(Seq<Part>, Seq<char>)> {
    match parent(local_agents) {
        None => None,
        Some(app_data_dir) => match (parent(app_data_dir), file_name(app_data_dir)) {
            (Some(data_parent), Some(name)) => Some((data_parent, name)),
            _ => None,
        },
    }
}

/// The canonical dev `agents/` dir below `data_parent`.
pub open spec fn canonical_agents(data_parent: Seq<Part>) -> Seq<Part> {
    data_parent.push(Part::Name(CANONICAL_DEV_IDENTIFIER@)).push(Part::Name(AGENTS_DIR@))
}

/// `res` is the canonical dev anchor of `local_agents`: there is one exactly
/// when `is_dev_data_dir_name` holds of the data directory's name.
pub open spec fn dev_anchor<F: Fn(&str) -> bool>(
    local_agents: Seq<Part>,
    is_dev_data_dir_name: F,
    res: Option<Seq<Part>>,
) -> bool {
    match data_dir_of(local_agents) {
        None => res is None,
        Some((data_parent, name)) => exists|asked: &str, dev: bool|
            {
                &&& asked@ == name
                &&& #[trigger] call_ensures(is_dev_data_dir_name, (asked,), dev)
                &&& res == if dev {
                    Some(canonical_agents(data_parent))
                } else {
                    None
                }
            },
    }
}

/// An optional path, by what it holds.
pub open spec fn path_of(res: Option<DirPath>) -> Option<Seq<Part>> {
    match res {
        Some(p) => Some(p@),
        None => None,
    }
}

impl DirPath {
    /// The path without its last component.
    pub fn parent(&self) -> (res: Option<DirPath>)
        ensures
            path_of(res) == parent(self@),
    {
        let n: usize = self.parts.len();
        if n == 0 {
            return None;
        }
        assert(self@.last() == self.parts@[n - 1]@);
        if let PathPart::Root = &self.parts[n - 1] {
            return None;
        }
        let mut parts: Vec<PathPart> = Vec::new();
        let mut i: usize = 0;
        while i < n - 1
            invariant
                0 < n == self.parts@.len(),
                i <= n - 1,
                parts@.len() == i,
                forall|j: int| 0 <= j < i ==> (#[trigger] parts@[j])@ == self.parts@[j]@,
            decreases n - i,
        {
            parts.push(self.parts[i].copy());
            i = i + 1;
        }
        let res = DirPath { parts };
        assert(res@ =~= self@.drop_last());
        Some(res)
    }

    /// The last component, if it is a name in Unicode.
    pub fn file_name(&self) -> (res: Option<&String>)
        ensures
            match res {
                Some(name) => file_name(self@) == Some(name@),
                None => file_name(self@) is None,
            },
    {
        let n: usize = self.parts.len();
        if n == 0 {
            return None;
        }
        assert(self@.last() == self.parts@[n - 1]@);
        match &self.parts[n - 1] {
            PathPart::Name(name) => Some(name),
            _ => None,
        }
    }

    /// The path with one more component.
    pub fn join(self, name: &str) -> (res: DirPath)
        ensures
            res@ == self@.push(Part::Name(name@)),
    {
        let mut parts = self.parts;
        parts.push(PathPart::Name(name.to_owned()));
        let res = DirPath { parts };
        assert(res@ =~= self@.push(Part::Name(name@)));
        res
    }
}

/// Compute the canonical dev anchor from a local `agents/` path.
/// Returns `None` when the path structure is unexpected, and when the data
/// directory is not one of a dev build; `is_dev_data_dir_name` tells by its
/// name whether it is.
pub fn canonical_dev_anchor<F: Fn(&str) -> bool>(
    local_agents: &DirPath,
    is_dev_data_dir_name: F,
) -> (res: Option<DirPath>)
    requires
        forall|name: &str| call_requires(is_dev_data_dir_name, (name,)),
    ensures
        dev_anchor(local_agents@, is_dev_data_dir_name, path_of(res)),
{
    let app_data_dir = match local_agents.parent() {
        Some(p) => p,
        None => return None,
    };
    let data_parent = match app_data_dir.parent() {
        Some(p) => p,
        None => return None,
    };
    let name = match app_data_dir.file_name() {
        Some(n) => n,
        None => return None,
    };
    if !is_dev_data_dir_name(name.as_str()) {
        return None;
    }
    Some(data_parent.join(CANONICAL_DEV_IDENTIFIER).join(AGENTS_DIR))
}

/// Compute the canonical dev anchor from a local `agents/` path.
pub fn canonical_dev_anchor_pub<F: Fn(&str) -> bool>(
    local_agents: &DirPath,
    is_dev_data_dir_name: F,
) -> (res: Option<DirPath>)
    requires
        forall|name: &str| call_requires(is_dev_data_dir_name, (name,)),
    ensures
        dev_anchor(local_agents@, is_dev_data_dir_name, path_of(res)),
{
    canonical_dev_anchor(local_agents, is_dev_data_dir_name)
}

/// Whether the identity is shared: the variable is set to `1`.
pub open spec fn identity_is_shared(share_identity: Option<String>) -> bool {
    share_identity matches Some(v) && v@ == "1"@
}

/// `res` is the anchor directory of a bundle, or why there is none: the canonical
/// dev anchor of its `agents/` dir if the identity is shared and there is one,
/// and the `agents/` dir itself otherwise.
pub open spec fn anchor_resolved<F: Fn(&str) -> bool>(
    app_data_dir: Result<DirPath, String>,
    share_identity: Option<String>,
    is_dev_data_dir_name: F,
    res: Result<DirPath, String>,
) -> bool {
    match app_data_dir {
        Err(e) => res matches Err(message) && message@ == "failed to resolve app data dir: "@ + e@,
        Ok(dir) => {
            let local_agents = dir@.push(Part::Name(AGENTS_DIR@));
            res matches Ok(anchor) && if identity_is_shared(share_identity) {
                ||| dev_anchor(local_agents, is_dev_data_dir_name, Some(anchor@))
                ||| dev_anchor(local_agents, is_dev_data_dir_name, None) && anchor@ == local_agents
            } else {
                anchor@ == local_agents
            }
        },
    }
}

/// Resolve the store-family anchor directory.
///
/// `app_data_dir` is the bundle's data directory, or why it could not be
/// resolved; `share_identity` is what `BUZZ_SHARE_IDENTITY` is set to.
///
/// For shared dev worktrees (`BUZZ_SHARE_IDENTITY=1`): the canonical dev
/// `agents/` dir, returned **unconditionally** regardless of whether it
/// exists yet.  Falling back on absence would let two simultaneous first-boot
/// processes each choose their own local dir, giving them different
/// lock/journal authorities and making shared-state recovery impossible.
///
/// For standalone: `app_data_dir()/agents`.  Never derived from
/// `managed-agents.json` — an absent file must never determine lock identity.
pub fn store_anchor_dir<F: Fn(&str) -> bool>(
    app_data_dir: Result<DirPath, String>,
    share_identity: Option<String>,
    is_dev_data_dir_name: F,
) -> (res: Result<DirPath, String>)
    requires
        forall|name: &str| call_requires(is_dev_data_dir_name, (name,)),
    ensures
        match app_data_dir {
            Err(e) => res matches Err(message) && message@ == "failed to resolve app data dir: "@
                + e@,
            Ok(dir) => {
                let local_agents = dir@.push(Part::Name(AGENTS_DIR@));
                res matches Ok(anchor) && if identity_is_shared(share_identity) {
                    ||| dev_anchor(local_agents, is_dev_data_dir_name, Some(anchor@))
                    ||| dev_anchor(local_agents, is_dev_data_dir_name, None) && anchor@
                        == local_agents
                } else {
                    anchor@ == local_agents
                }
            },
        },
        anchor_resolved(app_data_dir, share_identity, is_dev_data_dir_name, res),
{
    let dir = match app_data_dir {
        Ok(d) => d,
        Err(e) => return Err(join2("failed to resolve app data dir: ", e.as_str())),
    };
    let local_agents = dir.join(AGENTS_DIR);
    let is_shared: bool = match &share_identity {
        Some(v) => same_text(v.as_str(), "1"),
        None => false,
    };
    if is_shared {
        if let Some(anchor) = canonical_dev_anchor(&local_agents, is_dev_data_dir_name) {
            return Ok(anchor);
        }
    }
    Ok(local_agents)
}

// ---- Laws ----------------------------------------------------------------

/// Two dev worktrees below one parent have one anchor, whatever they are named:
/// they share one lock and one journal.
pub proof fn law_dev_worktrees_share_one_anchor<F: Fn(&str) -> bool>(
    data_parent: Seq<Part>,
    first_name: Seq<char>,
    second_name: Seq<char>,
    is_dev_data_dir_name: F,
    first: Seq<Part>,
    second: Seq<Part>,
)
    requires
        dev_anchor(
            data_parent.push(Part::Name(first_name)).push(Part::Name(AGENTS_DIR@)),
            is_dev_data_dir_name,
            Some(first),
        ),
        dev_anchor(
            data_parent.push(Part::Name(second_name)).push(Part::Name(AGENTS_DIR@)),
            is_dev_data_dir_name,
            Some(second),
        ),
    ensures
        first == second,
        first == canonical_agents(data_parent),
{
    lemma_data_dir_of(data_parent, first_name);
    lemma_data_dir_of(data_parent, second_name);
}

/// The data directory of an `agents/` dir is the one it was made in.
proof fn lemma_data_dir_of(data_parent: Seq<Part>, name: Seq<char>)
    ensures
        data_dir_of(data_parent.push(Part::Name(name)).push(Part::Name(AGENTS_DIR@))) == Some(
            (data_parent, name),
        ),
{
    let app_data_dir = data_parent.push(Part::Name(name));
    assert(app_data_dir.push(Part::Name(AGENTS_DIR@)).drop_last() =~= app_data_dir);
    assert(app_data_dir.drop_last() =~= data_parent);
}

/// The anchor of the anchor is the anchor, where it has one: redirecting twice
/// leads no further than redirecting once.
pub proof fn law_anchor_is_its_own_anchor<F: Fn(&str) -> bool>(
    local_agents: Seq<Part>,
    is_dev_data_dir_name: F,
    anchor: Seq<Part>,
    again: Seq<Part>,
)
    requires
        dev_anchor(local_agents, is_dev_data_dir_name, Some(anchor)),
        dev_anchor(anchor, is_dev_data_dir_name, Some(again)),
    ensures
        again == anchor,
{
    let (data_parent, name) = data_dir_of(local_agents)->0;
    lemma_data_dir_of(data_parent, CANONICAL_DEV_IDENTIFIER@);
}

/// A path holds its components, each as it is and in its place, and so does one
/// that may not be there.
pub proof fn law_path_holds_its_parts(path: DirPath, i: int)
    requires
        0 <= i < path.parts@.len(),
    ensures
        path_of(Some(path)) == Some(path@),
        path_of(None) is None,
        path@.len() == path.parts@.len(),
        path.parts@[i] is Root <==> path@[i] is Root,
        path.parts@[i] is Dots <==> path@[i] is Dots,
        path.parts@[i] is Foreign <==> path@[i] is Foreign,
        path.parts@[i] matches PathPart::Name(name) ==> path@[i] == Part::Name(name@),
{
}

/// The parent of a path with one more component is the path, unless that
/// component is a root, and its name is that component, if it is a name. A path
/// without components has neither.
pub proof fn law_parent_and_name_of_a_child(path: Seq<Part>, last: Part)
    ensures
        last is Root ==> parent(path.push(last)) is None,
        last !is Root ==> parent(path.push(last)) == Some(path),
        last matches Part::Name(name) ==> file_name(path.push(last)) == Some(name),
        last !is Name ==> file_name(path.push(last)) is None,
        parent(Seq::<Part>::empty()) is None,
        file_name(Seq::<Part>::empty()) is None,
{
    assert(path.push(last).drop_last() =~= path);
}

/// Every dev worktree has an anchor, however deep its data directory lies: for
/// any parent, any name that can only be told to be of a dev build, and any
/// directory in it, the anchor is the canonical dev directory beside it.
pub proof fn law_dev_worktree_has_the_canonical_anchor<F: Fn(&str) -> bool>(
    data_parent: Seq<Part>,
    name: Seq<char>,
    last: Part,
    is_dev_data_dir_name: F,
    res: Option<Seq<Part>>,
)
    requires
        last !is Root,
        dev_anchor(
            data_parent.push(Part::Name(name)).push(last),
            is_dev_data_dir_name,
            res,
        ),
        forall|asked: &str, dev: bool|
            asked@ == name && #[trigger] call_ensures(is_dev_data_dir_name, (asked,), dev) ==> dev,
    ensures
        res == Some(
            data_parent.push(Part::Name("xyz.block.buzz.app.dev"@)).push(Part::Name("agents"@)),
        ),
{
    let app_data_dir = data_parent.push(Part::Name(name));
    assert(app_data_dir.push(last).drop_last() =~= app_data_dir);
    assert(app_data_dir.drop_last() =~= data_parent);
}

/// No other directory has a dev anchor: not one whose name can only be told to
/// be of no dev build, nor one that does not stand in a data directory with a
/// name in Unicode.
pub proof fn law_other_dirs_have_no_dev_anchor<F: Fn(&str) -> bool>(
    local_agents: Seq<Part>,
    is_dev_data_dir_name: F,
    res: Option<Seq<Part>>,
)
    requires
        dev_anchor(local_agents, is_dev_data_dir_name, res),
        local_agents.len() < 2 || local_agents[local_agents.len() - 1] is Root
            || match local_agents[local_agents.len() - 2] {
            Part::Name(name) => forall|asked: &str, dev: bool|
                asked@ == name && #[trigger] call_ensures(is_dev_data_dir_name, (asked,), dev)
                    ==> !dev,
            _ => true,
        },
    ensures
        res is None,
{
    if local_agents.len() >= 2 && local_agents[local_agents.len() - 1] !is Root {
        let dir = local_agents.drop_last();
        assert(dir.last() == local_agents[local_agents.len() - 2]);
    }
}

/// With a shared identity a dev worktree is anchored at the canonical dev
/// directory beside its own, however deep that lies and whatever it is named.
pub proof fn law_shared_worktree_is_redirected<F: Fn(&str) -> bool>(
    dir: DirPath,
    data_parent: Seq<Part>,
    name: Seq<char>,
    share_identity: Option<String>,
    is_dev_data_dir_name: F,
    res: Result<DirPath, String>,
)
    requires
        dir@ == data_parent.push(Part::Name(name)),
        share_identity matches Some(v) && v@ == "1"@,
        forall|asked: &str, dev: bool|
            asked@ == name && #[trigger] call_ensures(is_dev_data_dir_name, (asked,), dev) ==> dev,
        anchor_resolved(Ok(dir), share_identity, is_dev_data_dir_name, res),
    ensures
        res matches Ok(anchor) && anchor@ == data_parent.push(
            Part::Name("xyz.block.buzz.app.dev"@),
        ).push(Part::Name("agents"@)),
{
    let anchor = res->Ok_0;
    if dev_anchor(dir@.push(Part::Name("agents"@)), is_dev_data_dir_name, Some(anchor@)) {
        law_dev_worktree_has_the_canonical_anchor(
            data_parent,
            name,
            Part::Name("agents"@),
            is_dev_data_dir_name,
            Some(anchor@),
        );
    } else {
        law_dev_worktree_has_the_canonical_anchor(
            data_parent,
            name,
            Part::Name("agents"@),
            is_dev_data_dir_name,
            None,
        );
    }
}

/// Without a shared identity, or without a dev data directory, a bundle is
/// anchored at its own `agents/` dir. Only an unresolved data directory is an
/// error.
pub proof fn law_standalone_keeps_its_own_dir<F: Fn(&str) -> bool>(
    app_data_dir: Result<DirPath, String>,
    share_identity: Option<String>,
    is_dev_data_dir_name: F,
    res: Result<DirPath, String>,
)
    requires
        anchor_resolved(app_data_dir, share_identity, is_dev_data_dir_name, res),
        (share_identity matches Some(v) && v@ == "1"@) ==> forall|asked: &str, dev: bool| #[trigger]
            call_ensures(is_dev_data_dir_name, (asked,), dev) ==> !dev,
    ensures
        app_data_dir matches Ok(dir) ==> (res matches Ok(anchor) && anchor@ == dir@.push(
            Part::Name("agents"@),
        )),
        app_data_dir matches Err(e) ==> (res matches Err(message) && message@
            == "failed to resolve app data dir: "@ + e@),
{
}

} // verus!
