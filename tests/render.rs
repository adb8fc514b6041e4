use flakers::{parse_document, parse_entry, AddInfo, DatedFlakeRef, Entry, FlakeRef, FlakeRefType, UpdateInfo};

fn dated(ref_type: FlakeRefType, repo: &str, commit: &str, date: &str) -> DatedFlakeRef {
    DatedFlakeRef {
        flake_ref: FlakeRef { ref_type, repo: repo.to_string(), commit: commit.to_string() },
        date: date.to_string(),
    }
}

#[test]
fn sha_is_first_eight_characters() {
    let f = FlakeRef {
        ref_type: FlakeRefType::Github,
        repo: "o/r".to_string(),
        commit: "bd92e8ee4a6031ca3dd836c91dc41c13fca1e533".to_string(),
    };
    assert_eq!(f.sha(), "bd92e8ee");
    let g = FlakeRef { commit: "12345678".to_string(), ..f };
    assert_eq!(g.sha(), "12345678");
}

#[test]
fn repo_url_per_provider() {
    let f = FlakeRef {
        ref_type: FlakeRefType::Github,
        repo: "nix-community/home-manager".to_string(),
        commit: "bd92e8ee4a6031ca".to_string(),
    };
    assert_eq!(f.repo_url(), "https://github.com/nix-community/home-manager");
    let g = FlakeRef { ref_type: FlakeRefType::Gitlab, ..f };
    assert_eq!(g.repo_url(), "https://gitlab.com/nix-community/home-manager");
}

#[test]
fn diff_url_for_same_repository() {
    let u = UpdateInfo {
        from: dated(FlakeRefType::Github, "o/r", "1111111122222222", "d1"),
        to: dated(FlakeRefType::Github, "o/r", "3333333344444444", "d2"),
    };
    assert_eq!(
        u.url(),
        Some("https://github.com/o/r/compare/11111111...33333333".to_string())
    );
}

#[test]
fn no_diff_url_across_repositories() {
    let u = UpdateInfo {
        from: dated(FlakeRefType::Github, "o/r", "1111111122222222", "d1"),
        to: dated(FlakeRefType::Github, "o/other", "3333333344444444", "d2"),
    };
    assert_eq!(u.url(), None);
}

#[test]
fn no_diff_url_across_providers() {
    let u = UpdateInfo {
        from: dated(FlakeRefType::Github, "o/r", "1111111122222222", "d1"),
        to: dated(FlakeRefType::Gitlab, "o/r", "3333333344444444", "d2"),
    };
    assert_eq!(u.url(), None);
}

#[test]
fn update_scenario_renders_one_line() {
    let input = "Flake lock file updates:\n\n\
• Updated input 'home-manager':\n    \
'github:nix-community/home-manager/bd92e8ee4a6031ca3dd836c91dc41c13fca1e533' (2025-10-03)\n  \
→ 'github:nix-community/home-manager/bcccb01d0a353c028cc8cb3254cac7ebae32929e' (2025-10-10)\n";
    let (_, entries) = parse_document(input).unwrap();
    assert_eq!(entries.len(), 1);
    assert!(entries[0].is_renderable());
    let line = entries[0].summary();
    assert_eq!(
        line,
        " - Updated input [`home-manager`](https://github.com/nix-community/home-manager): \
[`bd92e8ee` ➡️ `bcccb01d`](https://github.com/nix-community/home-manager/compare/bd92e8ee...bcccb01d) \
<sub>(2025-10-03 to 2025-10-10)<sub/>"
    );
    assert!(line.contains("home-manager"));
    assert!(line.contains("2025-10-03"));
    assert!(line.contains("2025-10-10"));
}

#[test]
fn cross_repository_update_renders_without_link() {
    let e = Entry::Updated(
        "x".to_string(),
        UpdateInfo {
            from: dated(FlakeRefType::Github, "o/r", "1111111122222222", "d1"),
            to: dated(FlakeRefType::Gitlab, "o/r", "3333333344444444", "d2"),
        },
    );
    assert_eq!(
        e.summary(),
        " - Updated input [`x`](https://github.com/o/r): `11111111` ➡️ `33333333` <sub>(d1 to d2)<sub/>"
    );
}

#[test]
fn follows_scenario_renders_follows_line() {
    let input = "Flake lock file updates:\n\n\
• Added input 'nihilistic-nvim/rustacean-nvim/gen-luarc/flake-parts':\n    \
follows 'nihilistic-nvim/rustacean-nvim/flake-parts'\n";
    let (_, entries) = parse_document(input).unwrap();
    assert_eq!(entries.len(), 1);
    let line = entries[0].summary();
    assert_eq!(line, " - Added input (follows `nihilistic-nvim/rustacean-nvim/flake-parts`)");
    assert!(!line.contains("https://"));
}

#[test]
fn new_input_renders_commit_link_and_date() {
    let (_, e) = parse_entry(
        "• Added input 'ltstatus/flake-utils':\n    \
'github:numtide/flake-utils/11707dc2f618dd54ca8739b309ec4fc024de578b' (2024-11-13)\n",
    )
    .unwrap();
    assert_eq!(
        e.summary(),
        " - Added input [`11707dc2`](https://github.com/numtide/flake-utils) (2024-11-13)"
    );
}

#[test]
fn short_commit_is_not_renderable() {
    let e = Entry::Added("x".to_string(), AddInfo::New(dated(FlakeRefType::Github, "o/r", "abc", "d")));
    assert!(!e.is_renderable());
    let f = Entry::Added("x".to_string(), AddInfo::Follows("y".to_string()));
    assert!(f.is_renderable());
    let u = Entry::Updated(
        "x".to_string(),
        UpdateInfo {
            from: dated(FlakeRefType::Github, "o/r", "1111111122222222", "d1"),
            to: dated(FlakeRefType::Github, "o/r", "3333333", "d2"),
        },
    );
    assert!(!u.is_renderable());
}
