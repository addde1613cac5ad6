use ahc_tools::{
    build_default_problem_url, download, init, InitError, find_tool_url, run_command, select_tool_url, text_contains, Anchor, Cli, Commands,
    CommitArgs, Config, DownloadArgs, General, InitArgs, ToolLinkError, ZipSource,
};

fn config() -> Config {
    Config {
        general: General {
            name: "ahc001".to_string(),
            problem_url: "https://example.net/problem".to_string(),
        },
    }
}

#[test]
fn init_uses_default_config_without_loading() {
    let cli = Cli {
        command: Commands::Init(InitArgs {
            name: "p".to_string(),
            force: false,
        }),
        config_file_name: None,
    };
    let d = run_command(&cli);
    assert_eq!(d.config_file_name, "ahc_tools.toml");
    assert!(!d.load_config);
}

#[test]
fn other_commands_load_named_config() {
    let cli = Cli {
        command: Commands::Commit(CommitArgs {
            message: "m".to_string(),
        }),
        config_file_name: Some("other.toml".to_string()),
    };
    let d = run_command(&cli);
    assert_eq!(d.config_file_name, "other.toml");
    assert!(d.load_config);
}

#[test]
fn download_prefers_zip_url() {
    let args = DownloadArgs {
        output_path: None,
        url: Some("https://example.net/page".to_string()),
        zip_url: Some("https://example.net/tools.zip".to_string()),
    };
    let plan = download(&args, &config());
    assert_eq!(
        plan.source,
        ZipSource::Direct("https://example.net/tools.zip".to_string())
    );
    assert_eq!(plan.output_path, ".");
}

#[test]
fn download_falls_back_to_page_then_config() {
    let args = DownloadArgs {
        output_path: Some("out".to_string()),
        url: Some("https://example.net/page".to_string()),
        zip_url: None,
    };
    let plan = download(&args, &config());
    assert_eq!(
        plan.source,
        ZipSource::Page("https://example.net/page".to_string())
    );
    assert_eq!(plan.output_path, "out");

    let args = DownloadArgs {
        output_path: None,
        url: None,
        zip_url: None,
    };
    let plan = download(&args, &config());
    assert_eq!(
        plan.source,
        ZipSource::Page("https://example.net/problem".to_string())
    );
}

#[test]
fn test_find_tool_url() {
    let html = "<html><body><p>Problem</p>\
        <a href=\"https://example.net/other.zip\">Web版</a>\
        <a href=\"https://example.net/tools.zip\">ローカル版</a>\
        </body></html>";
    let url = find_tool_url(html).unwrap();
    assert_eq!(url, "https://example.net/tools.zip");
}

#[test]
fn tool_url_needs_exactly_one_link() {
    let none = "<html><body><a href=\"x\">other</a></body></html>";
    assert_eq!(find_tool_url(none), Err(ToolLinkError { found: 0 }));
    let two = "<a href=\"x\">ローカル版</a><a href=\"y\"><span>ローカル版</span></a>";
    assert_eq!(find_tool_url(two), Err(ToolLinkError { found: 2 }));
}

#[test]
fn tool_url_from_anchors() {
    let anchors = vec![
        Anchor {
            texts: vec!["ローカル版".to_string()],
            href: None,
        },
        Anchor {
            texts: vec!["tools: ".to_string(), "ローカル版 (zip)".to_string()],
            href: Some("t.zip".to_string()),
        },
    ];
    assert_eq!(select_tool_url(&anchors), Ok("t.zip".to_string()));
}

#[test]
fn substring_search() {
    assert!(text_contains("abcabd", "abd"));
    assert!(text_contains("abc", ""));
    assert!(!text_contains("ab", "abc"));
    assert!(!text_contains("abcab", "abd"));
}

#[test]
fn build_default_url() {
    let url = build_default_problem_url(&"ahc001".to_string()).unwrap();
    assert_eq!(
        url,
        "https://atcoder.jp/contests/ahc001/tasks/ahc001_a?lang=ja"
    );
}

#[test]
fn default_url_encodes_segments() {
    let url = build_default_problem_url(&"a b".to_string()).unwrap();
    assert_eq!(
        url,
        "https://atcoder.jp/contests/a%20b/tasks/a%20b_a?lang=ja"
    );
}

#[test]
fn init_builds_config_for_new_file() {
    let args = InitArgs {
        name: "test_project".to_string(),
        force: false,
    };
    let config = init(&args, false).unwrap();
    assert_eq!(config.general.name, "test_project");
    assert_eq!(
        config.general.problem_url,
        "https://atcoder.jp/contests/test_project/tasks/test_project_a?lang=ja"
    );
}

#[test]
fn init_refuses_existing_file_without_force() {
    let args = InitArgs {
        name: "new_project".to_string(),
        force: false,
    };
    assert_eq!(init(&args, true), Err(InitError::AlreadyExists));
    let forced = InitArgs {
        name: "new_project".to_string(),
        force: true,
    };
    assert_eq!(init(&forced, true).unwrap().general.name, "new_project");
}
