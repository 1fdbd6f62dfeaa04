use cazean_tui::project_instructions::{
    instruction_paths, instruction_search_dirs, load_project_instructions_from, nearest_git_root,
    truncate_to_byte_limit, DirectoryFacts, InstructionFile, ProjectInstructions,
    PROJECT_INSTRUCTIONS_MAX_BYTES,
};

fn directory(path: &str, has_git: bool, has_override: bool, has_agents: bool) -> DirectoryFacts {
    DirectoryFacts {
        path: path.to_string(),
        has_git,
        has_override,
        has_agents,
    }
}

/// Loads the instructions for the first of `dirs`, from a table of files.
fn load(dirs: Vec<DirectoryFacts>, files: &[(&str, &str)]) -> Option<ProjectInstructions> {
    let mut read = Vec::new();
    for wanted in instruction_paths(&dirs) {
        for (path, text) in files {
            if wanted.source_path == *path {
                read.push(InstructionFile {
                    directory: wanted.directory.clone(),
                    source_path: wanted.source_path.clone(),
                    text: text.to_string(),
                });
            }
        }
    }
    load_project_instructions_from(&read)
}

#[test]
fn root_agents_file_loads() {
    let instructions = load(
        vec![directory("/work", true, false, true), directory("/", false, false, false)],
        &[("/work/AGENTS.md", "root instructions")],
    )
    .expect("expected project instructions");

    assert_eq!(instructions.entries.len(), 1);
    assert_eq!(instructions.entries[0].text, "root instructions");
    assert_eq!(instructions.entries[0].source_path, "/work/AGENTS.md");
}

#[test]
fn nested_agents_load_root_to_cwd() {
    let instructions = load(
        vec![
            directory("/work/crates/tui", false, false, true),
            directory("/work/crates", false, false, true),
            directory("/work", true, false, true),
            directory("/", false, false, true),
        ],
        &[
            ("/work/AGENTS.md", "root"),
            ("/work/crates/AGENTS.md", "crates"),
            ("/work/crates/tui/AGENTS.md", "tui"),
            ("/AGENTS.md", "outside"),
        ],
    )
    .expect("expected project instructions");
    let texts = instructions
        .entries
        .iter()
        .map(|entry| entry.text.as_str())
        .collect::<Vec<_>>();

    assert_eq!(texts, vec!["root", "crates", "tui"]);
}

#[test]
fn agents_override_wins() {
    let instructions = load(
        vec![directory("/work", true, true, true)],
        &[("/work/AGENTS.md", "base"), ("/work/AGENTS.override.md", "override")],
    )
    .expect("expected project instructions");

    assert_eq!(instructions.entries.len(), 1);
    assert_eq!(instructions.entries[0].text, "override");
    assert!(instructions.entries[0].source_path.ends_with("AGENTS.override.md"));
}

#[test]
fn missing_agents_returns_none() {
    assert!(load(vec![directory("/work", true, false, false)], &[]).is_none());
}

#[test]
fn total_cap_truncates_on_char_boundaries() {
    let text = format!("{}étail", "a".repeat(PROJECT_INSTRUCTIONS_MAX_BYTES - 1));
    let instructions = load(
        vec![directory("/work", true, false, true)],
        &[("/work/AGENTS.md", &text)],
    )
    .expect("expected project instructions");
    let loaded = &instructions.entries[0].text;

    assert_eq!(loaded.len(), PROJECT_INSTRUCTIONS_MAX_BYTES - 1);
    assert!(loaded.is_char_boundary(loaded.len()));
    assert!(loaded.chars().all(|ch| ch == 'a'));
}

#[test]
fn blank_files_are_left_out_and_the_cap_is_shared() {
    let text = "b".repeat(PROJECT_INSTRUCTIONS_MAX_BYTES - 3);
    let instructions = load(
        vec![
            directory("/w/a/b/c", false, false, true),
            directory("/w/a/b", false, false, true),
            directory("/w/a", false, false, true),
            directory("/w", true, false, true),
        ],
        &[
            ("/w/AGENTS.md", &text),
            ("/w/a/AGENTS.md", " \n\t"),
            ("/w/a/b/AGENTS.md", "12345"),
            ("/w/a/b/c/AGENTS.md", "dropped"),
        ],
    )
    .expect("expected project instructions");

    let texts: Vec<&str> = instructions.entries.iter().map(|e| e.text.as_str()).collect();
    assert_eq!(texts, vec![text.as_str(), "123"]);
    assert_eq!(instructions.entries[1].directory, "/w/a/b");
}

#[test]
fn search_goes_from_the_repository_root_down() {
    let dirs = vec![
        directory("/w/a", false, false, false),
        directory("/w", true, false, false),
        directory("/", false, false, false),
    ];
    assert_eq!(nearest_git_root(&dirs), Some(1));
    assert_eq!(instruction_search_dirs(&dirs), vec![1, 0]);

    let outside = vec![
        directory("/w/a", false, false, false),
        directory("/w", false, false, false),
    ];
    assert_eq!(nearest_git_root(&outside), None);
}

#[test]
fn byte_limits_keep_whole_characters() {
    assert_eq!(truncate_to_byte_limit("añb", 2), ("a".to_string(), true));
    assert_eq!(truncate_to_byte_limit("añb", 3), ("añ".to_string(), true));
    assert_eq!(truncate_to_byte_limit("añb", 4), ("añb".to_string(), false));
}
