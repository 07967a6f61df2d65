use codex_state::MemoryArtifact;
use codex_state::MemoryArtifactError;
use codex_state::MemoryArtifactSet;
use codex_state::MemoryGeneration;

fn artifact(path: &str) -> MemoryArtifact {
    MemoryArtifact::new(path, Vec::new()).expect("portable path")
}

#[test]
fn memory_artifact_accepts_portable_relative_key() {
    let artifact = MemoryArtifact::new("skills/example/SKILL.md", b"contents".to_vec()).expect("portable path");

    assert_eq!(artifact.path(), "skills/example/SKILL.md");
    assert_eq!(artifact.contents(), b"contents");
}

#[test]
fn memory_artifact_rejects_unsafe_or_ambiguous_keys() {
    for path in [
        "",
        "/MEMORY.md",
        "C:/MEMORY.md",
        "C:MEMORY.md",
        "skills//SKILL.md",
        "skills/./SKILL.md",
        "skills/../MEMORY.md",
        "skills\\example\\SKILL.md",
        "skills/example/",
        "skills/\0SKILL.md",
        "skills/name<.md",
        "skills/name>.md",
        "skills/name\".md",
        "skills/name|.md",
        "skills/name?.md",
        "skills/name*.md",
        "skills/control\u{1f}.md",
        "CON",
        "con.md",
        "skills/PrN.txt",
        "AUX",
        "nul.bin",
        "COM1",
        "com9.log",
        "LPT1",
        "lpt9.log",
        "skills/trailing-space ",
        "skills/trailing-dot.",
    ] {
        assert!(
            MemoryArtifact::new(path, Vec::new()).is_err(),
            "unsafe artifact key should be rejected: {path:?}"
        );
    }
}

#[test]
fn memory_artifact_errors_tell_empty_from_unportable_keys() {
    let empty = MemoryArtifact::new("", Vec::new()).expect_err("empty path");
    assert_eq!(empty, MemoryArtifactError::EmptyPath);
    assert_eq!(empty.message(), "Memory Artifact path must not be empty");
    let unportable = MemoryArtifact::new("a/../b", Vec::new()).expect_err("parent directory");
    assert_eq!(unportable, MemoryArtifactError::NotPortable);
    assert_eq!(
        unportable.message(),
        "Memory Artifact path must use portable relative components"
    );
}

#[test]
fn memory_artifact_accepts_names_outside_windows_reserved_ranges() {
    for path in ["COM10.md", "LPT0", "console.md", "skills/name .md"] {
        assert!(MemoryArtifact::new(path, Vec::new()).is_ok());
    }
}

#[test]
fn memory_artifact_set_rejects_case_insensitive_path_collisions() {
    let error = MemoryArtifactSet::new(vec![
        artifact("Skills/Example/SKILL.md"),
        artifact("skills/example/skill.MD"),
    ])
    .expect_err("case-insensitive filesystems would collapse these artifacts");

    assert!(error.message().contains("case-insensitive collision"));
    assert_eq!(
        error.message(),
        "Memory Artifact set contains a case-insensitive collision at skills/example/skill.MD"
    );
}

#[test]
fn memory_artifact_set_uses_deterministic_unicode_case_fold() {
    let error = MemoryArtifactSet::new(vec![artifact("straße.md"), artifact("STRASSE.md")])
        .expect_err("Unicode case folds must not produce materialization collisions");

    assert!(error.message().contains("case-insensitive collision"));
}

#[test]
fn memory_artifact_set_rejects_file_directory_prefix_collisions() {
    let error = MemoryArtifactSet::new(vec![
        artifact("skills/example"),
        artifact("Skills/Example/SKILL.md"),
    ])
    .expect_err("a portable key cannot be both a file and a directory");

    assert!(error.message().contains("file-directory collision"));
    assert_eq!(
        error.message(),
        "Memory Artifact set contains a file-directory collision at Skills/Example/SKILL.md"
    );
}

#[test]
fn memory_artifact_set_rejects_non_adjacent_file_directory_prefix_collisions() {
    let error = MemoryArtifactSet::new(vec![artifact("A"), artifact("A-B"), artifact("a/B")])
        .expect_err("an intervening key cannot hide a case-insensitive file-directory collision");

    assert!(error.message().contains("file-directory collision"));
}

#[test]
fn memory_artifact_set_orders_distinct_portable_keys() {
    let artifacts = MemoryArtifactSet::new(vec![artifact("skills/zeta/SKILL.md"), artifact("MEMORY.md")])
        .expect("distinct paths");

    assert_eq!(
        artifacts
            .artifacts()
            .iter()
            .map(MemoryArtifact::path)
            .collect::<Vec<_>>(),
        vec!["MEMORY.md", "skills/zeta/SKILL.md"]
    );
}

#[test]
fn memory_generation_returns_what_it_was_made_of() {
    let artifacts = MemoryArtifactSet::new(vec![artifact("b.md"), artifact("a.md")]).expect("distinct paths");
    let generation = MemoryGeneration::new("generation".to_string(), 7, 11, artifacts.clone());

    assert_eq!(generation.generation_id(), "generation");
    assert_eq!(generation.completed_watermark(), 7);
    assert_eq!(generation.published_at(), 11);
    assert_eq!(generation.artifacts(), artifacts.artifacts());
    assert_eq!(generation.into_artifact_set(), artifacts);
}
