use std::path::Path;
use tdg_rust::config::{resolve_repo_root, Config, EmbeddingModel, EmbeddingQuantization, EmbeddingSection, LoadedConfig, join_path};

#[test]
fn default_config_paths() {
    let cfg = Config::from_env(None);
    assert!(cfg.home.contains(".hermes"));
    assert!(cfg.db_path.contains("graph.db"));
}

#[test]
fn config_lean_from_env() {
    // Default should be false
    let cfg = Config::from_env(None);
    // lean depends on env, just check it's a bool
    let _ = cfg.lean;
}

fn joined(base: &str, parts: &[&str]) -> String {
    let mut p = Path::new(base).to_path_buf();
    for part in parts {
        p = p.join(part);
    }
    p.to_string_lossy().into_owned()
}

#[test]
fn derived_paths_computed_from_home() {
    let cfg = Config::defaults();
    assert_eq!(cfg.archive_db_path(), joined(&cfg.tdg_dir, &["graph", "tdg_archive.db"]));
    assert_eq!(cfg.graph_dir(), joined(&cfg.tdg_dir, &["graph"]));
    assert_eq!(cfg.config_dir(), joined(&cfg.tdg_dir, &["config"]));
    assert_eq!(cfg.snapshots_dir(), joined(&cfg.tdg_dir, &["snapshots"]));
    assert_eq!(cfg.working_memory_path(), joined(&cfg.state_dir, &["hermes-working-memory.json"]));
    assert_eq!(cfg.loop_state_path(), joined(&cfg.state_dir, &["hermes-loop-state.json"]));
    assert_eq!(cfg.meta_view_cache_path(), joined(&cfg.state_dir, &["hermes-meta-view-cache.json"]));
    assert_eq!(cfg.constraints_path(), joined(&cfg.state_dir, &["hermes-constraints.json"]));
    assert_eq!(cfg.diagnostic_thresholds_path(), joined(&cfg.config_dir(), &["diagnostic_thresholds.yaml"]));
    assert!(cfg.onnx_model_path().contains("model_quantized.onnx"));
}

#[test]
fn defaults_are_derived_from_home() {
    let cfg = Config::defaults();
    assert_eq!(cfg.home, "~/.hermes");
    assert_eq!(cfg.tdg_dir, "~/.hermes/tdg");
    assert_eq!(cfg.db_path, "~/.hermes/tdg/graph.db");
    assert_eq!(cfg.state_dir, "~/.hermes/state");
    assert_eq!(cfg.skills_dir, "~/.hermes/skills");
    assert!(!cfg.lean);
}

#[test]
fn settle_recomputes_paths_unless_overridden() {
    let mut loaded = Config::defaults();
    loaded.db_path = "/data/custom.db".to_string();
    loaded.state_dir = "/data/state".to_string();
    let cfg = Config::settle(loaded.clone(), "/home/agent/.hermes".to_string(), true, false, false);
    assert_eq!(cfg.home, "/home/agent/.hermes");
    assert_eq!(cfg.tdg_dir, "/home/agent/.hermes/tdg");
    assert_eq!(cfg.db_path, "/data/custom.db");
    assert_eq!(cfg.state_dir, "/home/agent/.hermes/state");
    assert_eq!(cfg.skills_dir, "/home/agent/.hermes/skills");
    let cfg = Config::settle(loaded, "/h".to_string(), false, true, false);
    assert_eq!(cfg.db_path, "/h/tdg/graph.db");
    assert_eq!(cfg.state_dir, "/data/state");
}

#[test]
fn with_db_path_overrides_only_the_database() {
    let cfg = Config::with_db_path(None, "/tmp/x.db".to_string());
    assert_eq!(cfg.db_path, "/tmp/x.db");
    assert_eq!(cfg.tdg_dir, "~/.hermes/tdg");
}

#[test]
fn join_path_matches_std_path() {
    for (base, seg) in [("a", "b"), ("a/", "b"), ("", "b"), ("/x", "/y"), ("/", "etc")] {
        let expected = Path::new(base).join(seg).to_string_lossy().into_owned();
        assert_eq!(join_path(base, seg), expected, "join {base:?} {seg:?}");
    }
}

#[test]
fn embedding_section_selection() {
    let d = EmbeddingSection::default();
    assert_eq!(d.effective_dimension(), 384);
    assert_eq!(d.model_dir_name(), "all-MiniLM-L6-v2");
    assert_eq!(d.onnx_filename(), "model_quantized.onnx");
    let g = EmbeddingSection { model: EmbeddingModel::Gemma, quantization: EmbeddingQuantization::Q4, dimension: None };
    assert_eq!(g.effective_dimension(), 768);
    assert_eq!(g.model_dir_name(), "embeddinggemma-300m");
    assert_eq!(g.onnx_filename(), "model_q4.onnx");
    let g8 = EmbeddingSection { model: EmbeddingModel::Gemma, quantization: EmbeddingQuantization::Q8, dimension: Some(384) };
    assert_eq!(g8.effective_dimension(), 384);
    assert_eq!(g8.onnx_filename(), "model_quantized.onnx");
    let mut cfg = Config::defaults();
    cfg.embedding = g;
    assert_eq!(cfg.embedding_model_path(), "~/.hermes/tdg/models/embeddinggemma-300m/model_q4.onnx");
    assert_eq!(cfg.embedding_tokenizer_path(), "~/.hermes/tdg/models/embeddinggemma-300m/tokenizer.json");
}

#[test]
fn loaded_config_derives_tdg_dir_from_home() {
    let mut raw = Config::defaults();
    raw.tdg_dir = "/elsewhere".to_string();
    raw.lean = true;
    let loaded = LoadedConfig { raw, home: "/h".to_string(), db_overridden: false, state_overridden: false, skills_overridden: false };
    let cfg = Config::from_env(Some(loaded));
    assert_eq!(cfg.home, "/h");
    assert_eq!(cfg.tdg_dir, "/h/tdg");
    assert_eq!(cfg.db_path, "/h/tdg/graph.db");
    assert!(cfg.lean);
    let d = Config::from_env(None);
    assert_eq!(d.tdg_dir, joined(&d.home, &["tdg"]));
    assert_eq!(d.db_path, joined(&d.tdg_dir, &["graph.db"]));
}

#[test]
fn repo_root_placeholders_are_replaced() {

    assert_eq!(
        resolve_repo_root("{\"a\": \"{REPO_ROOT}/x\", \"b\": \"{REPO_ROOT}\"}", "/repo"),
        "{\"a\": \"/repo/x\", \"b\": \"/repo\"}"
    );
    assert_eq!(resolve_repo_root("{REPO_ROOT", "/r"), "{REPO_ROOT");
    assert_eq!(resolve_repo_root("{{REPO_ROOT}}", "R"), "{R}");
    assert_eq!(resolve_repo_root("", "R"), "");
}
