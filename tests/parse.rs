use flakers::{
    parse_document, parse_entries, parse_entry, parse_header, AddInfo, DatedFlakeRef, Entry,
    FlakeRef, FlakeRefType, UpdateInfo,
};
use flakers::ParseError;

#[test]
fn test_parse_flake_ref() {
    let input = "github:nix-community/home-manager/bd92e8ee4a6031ca3dd836c91dc41c13fca1e533";
    let result = FlakeRef::parse_from(input).expect("parseable flake ref");

    assert_eq!(
        result.1,
        FlakeRef {
            ref_type: FlakeRefType::Github,
            repo: "nix-community/home-manager".to_string(),
            commit: "bd92e8ee4a6031ca3dd836c91dc41c13fca1e533".to_string(),
        }
    );
}

#[test]
fn test_parse_flake_ref_with_query() {
    let input =
        "github:nix-community/home-manager/bd92e8ee4a6031ca3dd836c91dc41c13fca1e533?shallow=1";
    let result = FlakeRef::parse_from(input).expect("parseable flake ref");

    assert_eq!(
        result.1,
        FlakeRef {
            ref_type: FlakeRefType::Github,
            repo: "nix-community/home-manager".to_string(),
            commit: "bd92e8ee4a6031ca3dd836c91dc41c13fca1e533".to_string(),
        }
    );
}

const FULL_INPUT: &str = r#"Flake lock file updates:

• Updated input 'home-manager':
    'github:nix-community/home-manager/bd92e8ee4a6031ca3dd836c91dc41c13fca1e533' (2025-10-03)
  → 'github:nix-community/home-manager/bcccb01d0a353c028cc8cb3254cac7ebae32929e' (2025-10-10)
• Updated input 'hypr-contrib':
    'github:hyprwm/contrib/513d71d3f42c05d6a38e215382c5a6ce971bd77d' (2025-09-30)
  → 'github:hyprwm/contrib/32e1a75b65553daefb419f0906ce19e04815aa3a' (2025-10-04)
• Updated input 'nihilistic-nvim':
    'github:iff/nihilistic-nvim/be0d9f0311c22ca7ef0d19431d3b2f537a95b764' (2025-10-06)
  → 'github:iff/nihilistic-nvim/9e091eb0f9ccee2ab2711b2226fec9c6af15fb6a' (2025-10-07)
• Added input 'ltstatus/flake-utils':
    'github:numtide/flake-utils/11707dc2f618dd54ca8739b309ec4fc024de578b' (2024-11-13)
• Updated input 'nixpkgs':
    'github:nixos/nixpkgs/dc704e6102e76aad573f63b74c742cd96f8f1e6c' (2025-10-02)
  → 'github:nixos/nixpkgs/2dad7af78a183b6c486702c18af8a9544f298377' (2025-10-09)
• Updated input 'osh-oxy':
    'github:iff/osh-oxy/e79f39e33912abd5b18ca7f5f1e0d0744d4a09e6' (2025-10-02)
  → 'github:iff/osh-oxy/eed066ec93dba6a85b709a31f482ebcdc376ce88' (2025-10-10)
• Added input 'nihilistic-nvim/rustacean-nvim/gen-luarc/flake-parts':
    follows 'nihilistic-nvim/rustacean-nvim/flake-parts'
"#;

#[test]
fn test_parse_full_input() {
    let input = FULL_INPUT;

    let remaining = parse_header(input).expect("Failed to parse header").0;
    let (_, entries) = parse_entries(remaining);

    assert_eq!(entries.len(), 7);

    match &entries[0] {
        Entry::Updated(name, info) => {
            assert_eq!(*name, "home-manager");
            assert_eq!(info.from.flake_ref.ref_type, FlakeRefType::Github);
            assert_eq!(info.from.flake_ref.repo, "nix-community/home-manager");
            assert_eq!(
                info.from.flake_ref.commit,
                "bd92e8ee4a6031ca3dd836c91dc41c13fca1e533"
            );
            assert_eq!(info.from.date, "2025-10-03");
            assert_eq!(info.to.flake_ref.ref_type, FlakeRefType::Github);
            assert_eq!(info.to.flake_ref.repo, "nix-community/home-manager");
            assert_eq!(
                info.to.flake_ref.commit,
                "bcccb01d0a353c028cc8cb3254cac7ebae32929e"
            );
            assert_eq!(info.to.date, "2025-10-10");
        }
        _ => panic!("Expected Updated entry"),
    }

    match &entries[3] {
        Entry::Added(_, AddInfo::New(info)) => {
            assert_eq!(info.flake_ref.ref_type, FlakeRefType::Github);
            assert_eq!(info.flake_ref.repo, "numtide/flake-utils");
            assert_eq!(
                info.flake_ref.commit,
                "11707dc2f618dd54ca8739b309ec4fc024de578b"
            );
            assert_eq!(info.date, "2024-11-13");
        }
        _ => panic!("Expected Added entry with New"),
    }

    match &entries.last().unwrap() {
        Entry::Added(_, AddInfo::Follows(repo)) => {
            assert_eq!(*repo, "nihilistic-nvim/rustacean-nvim/flake-parts");
        }
        _ => panic!("Expected Added entry with Follows"),
    }
}

#[test]
fn added_entries_keep_their_names() {
    let (_, entries) = parse_entries(parse_header(FULL_INPUT).unwrap().0);
    match &entries[3] {
        Entry::Added(name, _) => assert_eq!(*name, "ltstatus/flake-utils"),
        _ => panic!("Expected Added entry"),
    }
    match &entries[6] {
        Entry::Added(name, _) => {
            assert_eq!(*name, "nihilistic-nvim/rustacean-nvim/gen-luarc/flake-parts")
        }
        _ => panic!("Expected Added entry"),
    }
}

#[test]
fn document_keeps_block_order() {
    let (rest, entries) = parse_document(FULL_INPUT).unwrap();
    assert_eq!(rest, "");
    let names: Vec<&str> = entries
        .iter()
        .map(|e| match e {
            Entry::Updated(n, _) => n.as_str(),
            Entry::Added(n, _) => n.as_str(),
        })
        .collect();
    assert_eq!(
        names,
        vec![
            "home-manager",
            "hypr-contrib",
            "nihilistic-nvim",
            "ltstatus/flake-utils",
            "nixpkgs",
            "osh-oxy",
            "nihilistic-nvim/rustacean-nvim/gen-luarc/flake-parts",
        ]
    );
}

#[test]
fn gitlab_locator_parses() {
    let (rest, f) = FlakeRef::parse_from("gitlab:group/project/0123456789abcdef").unwrap();
    assert_eq!(rest, "");
    assert_eq!(f.ref_type, FlakeRefType::Gitlab);
    assert_eq!(f.repo, "group/project");
    assert_eq!(f.commit, "0123456789abcdef");
    assert_eq!(f.repo_url(), "https://gitlab.com/group/project");
}

#[test]
fn query_is_skipped_up_to_the_line_end() {
    let (rest, f) = FlakeRef::parse_from("github:a/b/c?dir=x&rev=y\nnext").unwrap();
    assert_eq!(rest, "\nnext");
    assert_eq!(f.repo, "a/b");
    assert_eq!(f.commit, "c");
}

#[test]
fn locator_with_zero_slashes_fails() {
    assert_eq!(FlakeRef::parse_from("github:abcdef").unwrap_err(), ParseError::Locator);
}

#[test]
fn locator_with_one_slash_fails() {
    assert_eq!(
        FlakeRef::parse_from("github:home-manager/bd92e8ee").unwrap_err(),
        ParseError::Locator
    );
}

#[test]
fn locator_with_three_slashes_fails() {
    assert_eq!(
        FlakeRef::parse_from("github:a/b/c/bd92e8ee").unwrap_err(),
        ParseError::Locator
    );
}

#[test]
fn locator_with_empty_body_fails() {
    assert_eq!(FlakeRef::parse_from("github:?x=1").unwrap_err(), ParseError::Locator);
}

#[test]
fn locator_without_colon_fails() {
    assert_eq!(FlakeRef::parse_from("github").unwrap_err(), ParseError::Locator);
}

#[test]
fn unknown_provider_fails() {
    assert_eq!(
        FlakeRef::parse_from("bitbucket:org/repo/bd92e8ee4a6031ca").unwrap_err(),
        ParseError::Provider
    );
    assert_eq!(
        FlakeRef::parse_from("GitHub:org/repo/bd92e8ee4a6031ca").unwrap_err(),
        ParseError::Provider
    );
}

#[test]
fn dated_locator_parses() {
    let (rest, d) =
        DatedFlakeRef::parse_from("  'github:o/r/0123456789' (2024-01-02)\nrest").unwrap();
    assert_eq!(rest, "rest");
    assert_eq!(d.date, "2024-01-02");
    assert_eq!(d.flake_ref.repo, "o/r");
    assert_eq!(d.flake_ref.commit, "0123456789");
}

#[test]
fn dated_locator_without_line_ending_fails() {
    assert_eq!(
        DatedFlakeRef::parse_from("'github:o/r/0123456789' (2024-01-02)").unwrap_err(),
        ParseError::Block
    );
}

#[test]
fn dated_locator_with_bad_provider_fails() {
    assert_eq!(
        DatedFlakeRef::parse_from("'bitbucket:o/r/0123456789' (2024-01-02)\n").unwrap_err(),
        ParseError::Provider
    );
}

#[test]
fn missing_header_fails() {
    assert_eq!(parse_header("Flake lock file updates:\n").unwrap_err(), ParseError::Header);
    assert_eq!(parse_document("Lock updates:\n\n").unwrap_err(), ParseError::Header);
}

#[test]
fn header_then_garbage_gives_no_entries() {
    let (rest, entries) = parse_document("Flake lock file updates:\n\nsomething else\n").unwrap();
    assert!(entries.is_empty());
    assert_eq!(rest, "something else\n");
}

#[test]
fn header_alone_gives_no_entries() {
    let (rest, entries) = parse_document("Flake lock file updates:\r\n\r\n").unwrap();
    assert!(entries.is_empty());
    assert_eq!(rest, "");
}

#[test]
fn malformed_block_stops_the_list() {
    let input = "Flake lock file updates:\n\n\
• Added input 'a':\n    follows 'b'\n\
• Updated input 'c':\n    'github:o/r/0123456789' (2024-01-02)\n\
• Added input 'd':\n    follows 'e'\n";
    let (rest, entries) = parse_document(input).unwrap();
    assert_eq!(entries.len(), 1);
    assert!(rest.starts_with("• Updated input 'c'"));
}

#[test]
fn malformed_update_body_is_an_error() {
    let input = "• Updated input 'c':\n    'github:o/r/0123456789' (2024-01-02)\n";
    assert_eq!(parse_entry(input).unwrap_err(), ParseError::Block);
}

#[test]
fn unknown_block_is_an_error() {
    assert_eq!(parse_entry("• Removed input 'x':\n").unwrap_err(), ParseError::Block);
}

#[test]
fn follows_block_gives_follows_entry() {
    let (rest, e) = parse_entry("• Added input 'x/y':\n    follows 'a/b/c'\ntail").unwrap();
    assert_eq!(rest, "tail");
    assert_eq!(
        e,
        Entry::Added("x/y".to_string(), AddInfo::Follows("a/b/c".to_string()))
    );
}

#[test]
fn added_locator_block_gives_new_entry() {
    let (_, e) =
        parse_entry("• Added input 'x':\n    'gitlab:o/r/0123456789' (2024-01-02)\n").unwrap();
    assert_eq!(
        e,
        Entry::Added(
            "x".to_string(),
            AddInfo::New(DatedFlakeRef {
                flake_ref: FlakeRef {
                    ref_type: FlakeRefType::Gitlab,
                    repo: "o/r".to_string(),
                    commit: "0123456789".to_string(),
                },
                date: "2024-01-02".to_string(),
            })
        )
    );
}

#[test]
fn update_info_parses_both_sides() {
    let (rest, u) = UpdateInfo::parse_from(
        "  'github:o/r/1111111111' (d1)\n  → 'github:o/r/2222222222' (d2)\n",
    )
    .unwrap();
    assert_eq!(rest, "");
    assert_eq!(u.from.flake_ref.commit, "1111111111");
    assert_eq!(u.to.flake_ref.commit, "2222222222");
    assert_eq!(u.from.date, "d1");
    assert_eq!(u.to.date, "d2");
}
