//! Wiki names, mirror paths, and the client's settings.

use wikidesk::client::agent_setup::{compact_whitespace, render_agent_setup_prompt};
use wikidesk::client::client_mirror::{
    parse_wiki_spec, parse_wiki_specs, parse_wikis, select_wikis, ClientMirror,
};
use wikidesk::client::{
    research_url, sync_summary_line, sync_url, trim_server_url, wiki_list_url, ClientConfig,
    ClientError,
};
use wikidesk::names::{
    derived_wiki_path, is_valid_wiki_name, validate_local_path, wiki_base_path, LocalPathError,
    WikiInfo,
};
use wikidesk::sync::exchange::{FileContent, SyncResponse, SyncSummary};

fn configured(name: &str, local_path: &str) -> ClientMirror {
    ClientMirror::new(name.into(), local_path.into())
}

fn info(name: &str, description: &str) -> WikiInfo {
    WikiInfo {
        name: name.into(),
        description: description.into(),
    }
}

#[test]
fn wiki_names_are_url_and_dir_safe_slugs() {
    for valid in ["rlhf", "rust-notes", "a1", "1a", "default"] {
        assert!(is_valid_wiki_name(valid), "{valid}");
    }
    for invalid in [
        "",
        "Wiki",
        "wiki_name",
        "-wiki",
        "wiki-",
        "../wiki",
        "wiki/name",
    ] {
        assert!(!is_valid_wiki_name(invalid), "{invalid}");
    }
}

#[test]
fn derived_wiki_paths_follow_wiki_names() {
    assert_eq!(derived_wiki_path("default"), "wiki");
    assert_eq!(derived_wiki_path("rlhf"), "wiki-rlhf");
    assert_eq!(wiki_base_path("rlhf"), "/wiki/rlhf");
}

#[test]
fn validates_portable_relative_local_paths() {
    for valid in ["wiki", "wiki-ml", "mirrors/ml"] {
        assert!(validate_local_path(valid).is_ok(), "{valid}");
    }
    for invalid in [
        "",
        "/wiki",
        "wiki/",
        "mirrors//ml",
        "./wiki",
        "../wiki",
        "a\\b",
        "C:/wiki",
    ] {
        assert!(validate_local_path(invalid).is_err(), "{invalid}");
    }
}

#[test]
fn refused_paths_say_why() {
    assert_eq!(validate_local_path(""), Err(LocalPathError::Empty));
    assert_eq!(
        validate_local_path("/wiki"),
        Err(LocalPathError::Absolute("/wiki".into()))
    );
    assert_eq!(
        validate_local_path("a\\b"),
        Err(LocalPathError::Backslash("a\\b".into()))
    );
    assert_eq!(
        validate_local_path("C:/wiki"),
        Err(LocalPathError::Colon("C:/wiki".into()))
    );
    assert_eq!(
        validate_local_path("wiki/"),
        Err(LocalPathError::EmptyComponent("wiki/".into()))
    );
    assert_eq!(
        validate_local_path("a/../b"),
        Err(LocalPathError::DotComponent("a/../b".into()))
    );
    assert_eq!(
        validate_local_path("").unwrap_err().message(),
        "local_path must not be empty"
    );
    assert_eq!(
        validate_local_path("../x").unwrap_err().message(),
        "local_path must not contain '.' or '..' components: '../x'"
    );
}

#[test]
fn parses_wiki_list() {
    assert_eq!(
        parse_wikis("default, ml:mirrors/ml").unwrap(),
        [
            configured("default", "wiki"),
            configured("ml", "mirrors/ml")
        ]
    );
    assert!(parse_wikis("Wiki").is_err());
    assert!(parse_wikis("rlhf,rlhf").is_err());
    assert!(parse_wikis("audio:wiki,default:wiki").is_err());
    assert!(parse_wikis("ml:../wiki").is_err());
}

#[test]
fn refused_wiki_lists_say_why() {
    let message = |raw: &str| parse_wikis(raw).unwrap_err().message();
    assert_eq!(message(" , "), "WIKIDESK_WIKIS must name at least one wiki");
    assert_eq!(
        message("Wiki"),
        "invalid wiki name 'Wiki' (use lowercase letters, digits, and hyphens; start and end with a letter or digit)"
    );
    assert_eq!(message("rlhf,rlhf"), "duplicate wiki name 'rlhf'");
    assert_eq!(
        message("audio:wiki,default:wiki"),
        "duplicate local_path 'wiki'"
    );
    assert_eq!(
        message("ml:../wiki"),
        "invalid local_path for wiki 'ml': local_path must not contain '.' or '..' components: '../wiki'"
    );
    // The first fault decides.
    assert_eq!(message("a,a,Wiki"), "duplicate wiki name 'a'");
}

#[test]
fn specs_are_cut_at_the_first_colon() {
    assert_eq!(
        parse_wiki_spec(" ml : mirrors/ml ").unwrap(),
        configured("ml", "mirrors/ml")
    );
    assert_eq!(
        parse_wiki_spec("ml:a:b").unwrap_err(),
        ClientError::InvalidLocalPath {
            name: "ml".into(),
            error: LocalPathError::Colon("a:b".into()),
        }
    );
    assert_eq!(
        parse_wiki_specs(&vec!["a, b:x".into(), "c".into()]).unwrap(),
        [
            configured("a", "wiki-a"),
            configured("b", "x"),
            configured("c", "wiki-c")
        ]
    );
}

#[test]
fn mirrors_are_read_back_as_they_are_written() {
    let mirrors = vec![
        configured("default", "wiki"),
        configured("ml", "mirrors/ml"),
        configured("rust", "wiki-rust"),
    ];
    let written: Vec<String> = mirrors.iter().map(|mirror| mirror.spec()).collect();
    assert_eq!(written, ["default", "ml:mirrors/ml", "rust"]);
    assert_eq!(parse_wikis(&written.join(",")).unwrap(), mirrors);
}

#[test]
fn research_requires_explicit_wiki() {
    let config = ClientConfig {
        server_url: "http://example.test".into(),
        wikis: vec![
            configured("rlhf", "wiki-rlhf"),
            configured("rust", "wiki-rust"),
        ],
    };

    let err = config.require_wiki(None).unwrap_err().message();

    assert!(err.contains("--wiki/-w is required"));
    assert!(err.contains("rlhf, rust"));
}

#[test]
fn rejects_unknown_wiki() {
    let config = ClientConfig {
        server_url: "http://example.test".into(),
        wikis: vec![configured("rlhf", "wiki-rlhf")],
    };

    let err = config
        .require_wiki(Some("rust".into()))
        .unwrap_err()
        .message();

    assert!(err.contains("unknown wiki 'rust'"));
    assert!(err.contains("rlhf"));
}

#[test]
fn selected_wikis_are_one_or_all() {
    let config = ClientConfig {
        server_url: "http://example.test".into(),
        wikis: vec![
            configured("rlhf", "wiki-rlhf"),
            configured("rust", "wiki-rust"),
        ],
    };
    assert_eq!(
        config.selected_wikis(Some("rust".into())).unwrap(),
        [configured("rust", "wiki-rust")]
    );
    assert_eq!(
        config.selected_wikis(None).unwrap(),
        [
            configured("rlhf", "wiki-rlhf"),
            configured("rust", "wiki-rust")
        ]
    );
    assert_eq!(
        config.selected_wikis(Some("ml".into())).unwrap_err(),
        ClientError::UnknownWiki {
            wiki: "ml".into(),
            configured: "rlhf, rust".into(),
        }
    );
}

#[test]
fn settings_come_from_two_values() {
    let config = ClientConfig::from_values(Some("http://host//"), Some("ml")).unwrap();
    assert_eq!(config.server_url, "http://host");
    assert_eq!(config.wikis, [configured("ml", "wiki-ml")]);
    assert_eq!(
        ClientConfig::from_values(None, Some("ml"))
            .err()
            .unwrap()
            .message(),
        "WIKIDESK_SERVER_URL not set"
    );
    assert_eq!(
        ClientConfig::from_values(Some("http://host"), None)
            .err()
            .unwrap()
            .message(),
        "WIKIDESK_WIKIS not set (example: WIKIDESK_WIKIS=default,ml:wiki-ml)"
    );
}

#[test]
fn urls_follow_the_server_and_the_wiki() {
    assert_eq!(trim_server_url("http://host//"), "http://host");
    assert_eq!(wiki_list_url("http://host"), "http://host/wiki");
    assert_eq!(
        research_url("http://host", "ml"),
        "http://host/wiki/ml/api/research"
    );
    assert_eq!(sync_url("http://host", "ml"), "http://host/wiki/ml/api/sync");
}

#[test]
fn selects_requested_wikis_from_server_list() {
    let selected = select_wikis(
        vec![
            info("ml", "Machine learning."),
            info("knowledge", "Retrieval."),
        ],
        vec!["knowledge:wiki".into()],
    )
    .unwrap();

    assert_eq!(selected[0].name, "knowledge");
    assert_eq!(selected[0].local_path, "wiki");
}

#[test]
fn selection_without_a_request_is_everything() {
    let selected = select_wikis(
        vec![info("ml", "Machine learning."), info("default", "All.")],
        vec![],
    )
    .unwrap();
    assert_eq!(
        selected,
        [
            configured("ml", "wiki-ml").with_description("Machine learning.".into()),
            configured("default", "wiki").with_description("All.".into()),
        ]
    );
}

#[test]
fn refused_selections_say_why() {
    let available = || vec![info("ml", "Machine learning."), info("audio", "Sound.")];
    assert_eq!(
        select_wikis(available(), vec!["rust,ml".into(), "go".into()])
            .unwrap_err()
            .message(),
        "server does not advertise wiki(s): rust, go (available: audio, ml)"
    );
    assert_eq!(
        select_wikis(vec![info("ml", " \t")], vec![])
            .unwrap_err()
            .message(),
        "server returned empty description for wiki 'ml'"
    );
}

#[test]
fn setup_prompt_contains_agent_instructions() {
    let prompt = render_agent_setup_prompt(
        "http://example.test",
        &vec![
            ClientMirror::new("knowledge".into(), "wiki".into())
                .with_description("Retrieval and epistemology.".into()),
            ClientMirror::new("ml".into(), "wiki-ml".into())
                .with_description("Machine learning.".into()),
        ],
    )
    .unwrap();

    assert!(prompt.contains("export WIKIDESK_SERVER_URL=http://example.test"));
    assert!(prompt.contains("export WIKIDESK_WIKIS=knowledge:wiki,ml"));
    assert!(prompt.contains("`knowledge` (`wiki/`): Retrieval and epistemology."));
    assert!(prompt.contains("wikidesk research -w knowledge \"<question>\""));
    assert!(prompt.contains("Never edit local wiki mirror files directly."));
}

#[test]
fn setup_prompt_needs_descriptions() {
    let err =
        render_agent_setup_prompt("http://example.test", &vec![configured("ml", "x")]).unwrap_err();
    assert_eq!(err.message(), "wiki 'ml' has no description");
    assert_eq!(compact_whitespace("  a \n\t b "), "a b");
}

#[test]
fn sync_summary_counts_delta() {
    let summary = SyncResponse {
        upserts: vec![FileContent {
            path: "a.md".into(),
            content: "a".into(),
        }],
        deletes: vec!["b.md".into(), "c.md".into()],
    }
    .summary();

    assert_eq!(
        summary,
        SyncSummary {
            updated: 1,
            deleted: 2
        }
    );
    assert_eq!(summary.total(), 3);
}

#[test]
fn summaries_are_printed_where_something_changed() {
    let summary = |updated: usize, deleted: usize| SyncSummary { updated, deleted };
    assert_eq!(
        sync_summary_line("ml", summary(1, 20)),
        Some("sync ml: 1 updated, 20 deleted".to_string())
    );
    assert_eq!(sync_summary_line("ml", summary(0, 0)), None);
}

#[test]
fn derived_paths_are_valid_and_distinct() {
    let names = ["default", "rlhf", "rust-notes", "wiki"];
    for (i, name) in names.iter().enumerate() {
        let path = derived_wiki_path(name);
        assert!(validate_local_path(&path).is_ok());
        for other in &names[i + 1..] {
            assert_ne!(path, derived_wiki_path(other));
        }
    }
}

#[test]
fn setups_give_the_mirrors_asked_for() {
    let asked = parse_wiki_specs(&vec!["ml : notes/ml , default".into()]).unwrap();
    let selected = select_wikis(
        vec![
            info("default", "All."),
            info("ml", "Machine\n learning."),
            info("audio", "Sound."),
        ],
        vec!["ml : notes/ml , default".into()],
    )
    .unwrap();
    let prompt = render_agent_setup_prompt("http://host", &selected).unwrap();
    let line = prompt
        .lines()
        .find_map(|line| line.strip_prefix("export WIKIDESK_WIKIS="))
        .unwrap();
    assert_eq!(line, "ml:notes/ml,default");
    assert_eq!(parse_wikis(line).unwrap(), asked);
    assert!(prompt.contains("- `ml` (`notes/ml/`): Machine learning."));
}
