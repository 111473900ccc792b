use pmtconcon::error::ErrorCode;
use pmtconcon::lineage::{plan_lineage_clone, IconAiState, LineageRow, VersionRow};

fn state(source: &str, lineage: &str, generation: i64, active: Option<&str>, revision: i64) -> IconAiState {
    IconAiState {
        source_file_id: source.to_string(),
        lineage_id: lineage.to_string(),
        generation,
        active_version_id: active.map(str::to_string),
        revision,
    }
}

fn version(id: &str, parent: Option<&str>, lineage: &str, generation: i64) -> VersionRow {
    VersionRow {
        id: id.to_string(),
        parent_id: parent.map(str::to_string),
        base_source_file_id: "src".to_string(),
        base_lineage_id: lineage.to_string(),
        base_generation: generation,
        candidate_id: Some(format!("cand_{id}")),
        effective_source_file_id: Some(format!("eff_{id}")),
    }
}

fn lineage(id: &str, generation: i64) -> LineageRow {
    LineageRow { source_file_id: "src".to_string(), lineage_id: id.to_string(), generation }
}

fn ids(prefix: &str, n: usize) -> Vec<String> {
    (0..n).map(|i| format!("{prefix}{i}")).collect()
}

#[test]
fn cloned_history_remaps_versions_parents_and_lineages() {
    let source = state("src", "L2", 2, Some("v3"), 4);
    let target = state("src", "T1", 1, None, 0);
    let versions = vec![
        version("v1", None, "L1", 1),
        version("v2", Some("v1"), "L1", 1),
        version("v3", Some("v2"), "L2", 2),
    ];
    let lineages = vec![lineage("L1", 1), lineage("L2", 2), lineage("L1", 1)];
    let plan = plan_lineage_clone(
        &source,
        &target,
        &versions,
        &lineages,
        "NEW",
        &ids("t", 3),
        &ids("h", 3),
    )
    .unwrap();

    assert_eq!(plan.lineage_bump, Some(("NEW".to_string(), 2)));
    assert_eq!(plan.new_lineages.len(), 1);
    assert_eq!(plan.new_lineages[0].lineage_id, "h0");
    assert_eq!(plan.new_lineages[0].generation, 1);

    let copies: Vec<(String, String, Option<String>, String)> = plan
        .versions
        .iter()
        .map(|c| {
            (
                c.source_version_id.clone(),
                c.target_version_id.clone(),
                c.parent_version_id.clone(),
                c.base_lineage_id.clone(),
            )
        })
        .collect();
    assert_eq!(
        copies,
        vec![
            ("v1".to_string(), "t0".to_string(), None, "h0".to_string()),
            ("v2".to_string(), "t1".to_string(), Some("t0".to_string()), "h0".to_string()),
            ("v3".to_string(), "t2".to_string(), Some("t1".to_string()), "NEW".to_string()),
        ]
    );
    for (copy, id) in plan.versions.iter().zip(["v1", "v2", "v3"]) {
        assert_eq!(copy.candidate_id, Some(format!("cand_{id}")));
        assert_eq!(copy.effective_source_file_id, Some(format!("eff_{id}")));
    }
    assert_eq!(plan.active_version_id, Some("t2".to_string()));
    assert_eq!(plan.revision, 4);
}

#[test]
fn cloning_onto_a_target_at_the_same_generation_keeps_its_lineage() {
    let source = state("src", "L1", 1, Some("v1"), 0);
    let target = state("src", "T1", 1, None, 0);
    let plan = plan_lineage_clone(
        &source,
        &target,
        &vec![version("v1", None, "L1", 1)],
        &vec![lineage("L1", 1)],
        "NEW",
        &ids("t", 1),
        &ids("h", 1),
    )
    .unwrap();
    assert_eq!(plan.lineage_bump, None);
    assert!(plan.new_lineages.is_empty());
    assert_eq!(plan.versions[0].base_lineage_id, "T1");
    assert_eq!(plan.revision, 1);
}

#[test]
fn cloning_refuses_foreign_sources_used_targets_and_broken_graphs() {
    let target = state("src", "T1", 1, None, 0);
    let empty: Vec<VersionRow> = Vec::new();
    let none: Vec<LineageRow> = Vec::new();
    let code = |source: &IconAiState, target: &IconAiState, versions: &Vec<VersionRow>, lineages: &Vec<LineageRow>| {
        plan_lineage_clone(source, target, versions, lineages, "NEW", &ids("t", versions.len()), &ids("h", lineages.len()))
            .unwrap_err()
            .code
    };
    assert_eq!(code(&state("other", "L1", 1, None, 0), &target, &empty, &none), ErrorCode::AiCloneSourceMismatch);
    assert_eq!(
        code(&state("src", "L1", 1, None, 0), &state("src", "T1", 1, None, 2), &empty, &none),
        ErrorCode::AiCloneTargetNotFresh
    );
    assert_eq!(
        code(&state("src", "L1", 1, None, 0), &state("src", "T1", 3, None, 0), &empty, &none),
        ErrorCode::AiCloneGenerationInvalid
    );
    let orphan = vec![version("v2", Some("v1"), "L1", 1)];
    assert_eq!(
        code(&state("src", "L1", 1, None, 0), &target, &orphan, &vec![lineage("L1", 1)]),
        ErrorCode::AiCloneDagInvalid
    );
    let unregistered = vec![version("v1", None, "L9", 1)];
    assert_eq!(
        code(&state("src", "L1", 1, None, 0), &target, &unregistered, &vec![lineage("L1", 1)]),
        ErrorCode::AiCloneLineageMissing
    );
    assert_eq!(
        code(&state("src", "L1", 1, Some("v9"), 1), &target, &empty, &none),
        ErrorCode::AiCloneActiveVersionInvalid
    );
}
