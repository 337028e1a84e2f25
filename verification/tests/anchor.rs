use store_journal::anchor::{
    canonical_dev_anchor, canonical_dev_anchor_pub, store_anchor_dir, DirPath, PathPart,
};

/// A path from its text: `/` for the root, `?` for a name that is not Unicode.
fn path(text: &str) -> DirPath {
    let mut parts = Vec::new();
    if text.starts_with('/') {
        parts.push(PathPart::Root);
    }
    for name in text.split('/').filter(|n| !n.is_empty()) {
        parts.push(match name {
            "." | ".." => PathPart::Dots,
            "?" => PathPart::Foreign,
            _ => PathPart::Name(name.to_string()),
        });
    }
    DirPath { parts }
}

fn text(path: &DirPath) -> String {
    let mut res = String::new();
    for part in &path.parts {
        match part {
            PathPart::Root => {}
            PathPart::Dots => res.push_str("/.."),
            PathPart::Name(n) => {
                res.push('/');
                res.push_str(n);
            }
            PathPart::Foreign => res.push_str("/?"),
        }
    }
    res
}

fn is_dev(name: &str) -> bool {
    name.starts_with("xyz.block.buzz.app.dev")
}

#[test]
fn dev_worktrees_share_one_anchor() {
    for name in ["xyz.block.buzz.app.dev", "xyz.block.buzz.app.dev.main", "xyz.block.buzz.app.dev.x"] {
        let local = path(&format!("/data/{name}/agents"));
        let anchor = canonical_dev_anchor_pub(&local, is_dev).unwrap();
        assert_eq!(text(&anchor), "/data/xyz.block.buzz.app.dev/agents");
        let again = canonical_dev_anchor(&anchor, is_dev).unwrap();
        assert_eq!(text(&again), text(&anchor));
    }
}

#[test]
fn other_paths_have_no_dev_anchor() {
    for local in [
        "/data/xyz.block.buzz.app/agents",
        "/agents",
        "/",
        "agents",
        "",
        "/data/?/agents",
        "/data/../agents",
    ] {
        assert!(canonical_dev_anchor_pub(&path(local), is_dev).is_none(), "{local}");
    }
}

#[test]
fn relative_paths_have_a_dev_anchor_too() {
    let local = path("xyz.block.buzz.app.dev.x/agents");
    let anchor = canonical_dev_anchor_pub(&local, is_dev).unwrap();
    assert_eq!(anchor.parts.len(), 2);
    assert_eq!(text(&anchor), "/xyz.block.buzz.app.dev/agents");
}

#[test]
fn anchor_is_redirected_only_for_a_shared_identity() {
    let dir = || Ok(path("/data/xyz.block.buzz.app.dev.x"));
    let anchor = |share: Option<&str>| {
        text(&store_anchor_dir(dir(), share.map(str::to_string), is_dev).unwrap())
    };
    assert_eq!(anchor(Some("1")), "/data/xyz.block.buzz.app.dev/agents");
    for share in [None, Some("0"), Some(""), Some("true"), Some("11")] {
        assert_eq!(anchor(share), "/data/xyz.block.buzz.app.dev.x/agents");
    }
    let release = store_anchor_dir(
        Ok(path("/data/xyz.block.buzz.app")),
        Some("1".to_string()),
        is_dev,
    );
    assert_eq!(text(&release.unwrap()), "/data/xyz.block.buzz.app/agents");
}

#[test]
fn unresolved_data_dir_is_an_error() {
    let message = store_anchor_dir(Err("no home".to_string()), None, is_dev).unwrap_err();
    assert_eq!(message, "failed to resolve app data dir: no home");
}
