use usbackup::github::{gitignore_patterns, select_templates, GithubContent};
use usbackup::wizard::default_exclusions;

fn item(name: &str, url: Option<&str>, kind: &str) -> GithubContent {
    GithubContent {
        name: name.to_string(),
        download_url: url.map(|u| u.to_string()),
        content_type: kind.to_string(),
    }
}

#[test]
fn templates_are_gitignore_files_with_url() {
    let items = vec![
        item("Rust.gitignore", Some("https://x/Rust.gitignore"), "file"),
        item("README.md", Some("https://x/README.md"), "file"),
        item("Global", None, "dir"),
        item("Node.gitignore", None, "file"),
        item("Python.gitignore", Some("https://x/Python.gitignore"), "dir"),
        item("a.gitignore.gitignore", Some("u"), "file"),
    ];
    assert_eq!(
        select_templates(&items),
        vec![
            ("Rust".to_string(), "https://x/Rust.gitignore".to_string()),
            ("a".to_string(), "u".to_string()),
        ]
    );
    assert!(select_templates(&vec![]).is_empty());
}

#[test]
fn gitignore_lines() {
    let content = "# comment\n\nnode_modules/\n  *.log  \r\ntarget\n   # indented comment\n";
    assert_eq!(gitignore_patterns(content), vec!["node_modules/", "*.log", "target"]);
    assert!(gitignore_patterns("").is_empty());
    assert_eq!(gitignore_patterns("last"), vec!["last"]);
}

#[test]
fn default_exclusion_list() {
    let content = "// defaults\n.cache\n# not a comment here\n\n  // also comment\nThumbs.db";
    assert_eq!(default_exclusions(content), vec![".cache", "# not a comment here", "Thumbs.db"]);
}

#[test]
fn patterns_match_std_lines() {
    let content = "a\r\nb\rc\n \n#x\nd";
    let expected: Vec<String> = content
        .lines()
        .map(|l| l.trim())
        .filter(|l| !l.is_empty() && !l.starts_with('#'))
        .map(|l| l.to_string())
        .collect();
    assert_eq!(gitignore_patterns(content), expected);
}
