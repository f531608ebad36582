//! Configuration layout: the home directory, the paths derived from it and
//! the embedding-model section.
//!
//! Paths are held as strings and joined as a POSIX path buffer joins them.
//! Reading configuration files and environment variables is done around the
//! library; what stands here is how the loaded values become a configuration.

use vstd::prelude::*;

use crate::text::{chars_of, occurs_at_exec, owned, push_char, push_str};

verus! {

/// Embedding model selection.
#[derive(Debug, Clone, Copy, PartialEq, Eq, Structural)]
pub enum EmbeddingModel {
    /// all-MiniLM-L6-v2 (384-dim, fast, good quality).
    Minilm,
    /// EmbeddingGemma-300M (768-dim, superior quality via MRL).
    Gemma,
}

impl Default for EmbeddingModel {
    fn default() -> (m: Self)
        ensures
            m == EmbeddingModel::Minilm,
    {
        EmbeddingModel::Minilm
    }
}

/// Embedding quantization for Gemma model.
#[derive(Debug, Clone, Copy, PartialEq, Eq, Structural)]
pub enum EmbeddingQuantization {
    /// Q4 quantization (197 MB, ~0.45 MTEB loss vs FP32).
    Q4,
    /// Q8 quantization (389 MB, negligible quality loss).
    Q8,
}

impl Default for EmbeddingQuantization {
    fn default() -> (q: Self)
        ensures
            q == EmbeddingQuantization::Q4,
    {
        EmbeddingQuantization::Q4
    }
}

/// Embedding configuration section.
#[derive(Debug, Clone, Copy, PartialEq, Eq, Structural)]
pub struct EmbeddingSection {
    /// Embedding model to use.
    pub model: EmbeddingModel,
    /// Quantization level for the Gemma model (ignored for MiniLM).
    pub quantization: EmbeddingQuantization,
    /// Embedding dimension; MiniLM: 384, Gemma: 768 unless truncated.
    pub dimension: Option<usize>,
}

impl Default for EmbeddingSection {
    fn default() -> (e: Self)
        ensures
            e == default_embedding(),
    {
        EmbeddingSection {
            model: EmbeddingModel::Minilm,
            quantization: EmbeddingQuantization::Q4,
            dimension: None,
        }
    }
}

pub open spec fn default_embedding() -> EmbeddingSection {
    EmbeddingSection { model: EmbeddingModel::Minilm, quantization: EmbeddingQuantization::Q4, dimension: None }
}

pub open spec fn effective_dimension_of(e: EmbeddingSection) -> nat {
    match e.model {
        EmbeddingModel::Minilm => 384,
        EmbeddingModel::Gemma => match e.dimension {
            Some(d) => d as nat,
            None => 768,
        },
    }
}

pub open spec fn model_dir_of(e: EmbeddingSection) -> Seq<char> {
    match e.model {
        EmbeddingModel::Minilm => "all-MiniLM-L6-v2"@,
        EmbeddingModel::Gemma => "embeddinggemma-300m"@,
    }
}

pub open spec fn onnx_filename_of(e: EmbeddingSection) -> Seq<char> {
    match e.model {
        EmbeddingModel::Minilm => "model_quantized.onnx"@,
        EmbeddingModel::Gemma => match e.quantization {
            EmbeddingQuantization::Q4 => "model_q4.onnx"@,
            EmbeddingQuantization::Q8 => "model_quantized.onnx"@,
        },
    }
}

impl EmbeddingSection {
    /// Get the effective embedding dimension.
    pub fn effective_dimension(&self) -> (d: usize)
        ensures
            d as nat == effective_dimension_of(*self),
    {
        match self.model {
            EmbeddingModel::Minilm => 384,
            EmbeddingModel::Gemma => match self.dimension {
                Some(d) => d,
                None => 768,
            },
        }
    }

    /// Get the model directory name for storage.
    pub fn model_dir_name(&self) -> (s: &'static str)
        ensures
            s@ == model_dir_of(*self),
    {
        match self.model {
            EmbeddingModel::Minilm => "all-MiniLM-L6-v2",
            EmbeddingModel::Gemma => "embeddinggemma-300m",
        }
    }

    /// Get the ONNX model filename based on quantization.
    pub fn onnx_filename(&self) -> (s: &'static str)
        ensures
            s@ == onnx_filename_of(*self),
    {
        match self.model {
            EmbeddingModel::Minilm => "model_quantized.onnx",
            EmbeddingModel::Gemma => match self.quantization {
                EmbeddingQuantization::Q4 => "model_q4.onnx",
                EmbeddingQuantization::Q8 => "model_quantized.onnx",
            },
        }
    }
}

/// The path `base` extended by `seg`, as a POSIX path buffer pushes: an
/// absolute segment replaces the base, an empty base yields the segment, and a
/// separator is inserted unless the base already ends with one.
pub open spec fn path_join(base: Seq<char>, seg: Seq<char>) -> Seq<char> {
    if seg.len() > 0 && seg[0] == '/' {
        seg
    } else if base.len() == 0 {
        seg
    } else if base.last() == '/' {
        base + seg
    } else {
        base + seq!['/'] + seg
    }
}

/// Join a path segment onto a base path.
pub fn join_path(base: &str, seg: &str) -> (p: String)
    ensures
        p@ == path_join(base@, seg@),
{
    let b = chars_of(base);
    let s = chars_of(seg);
    if s.len() > 0 && s[0] == '/' {
        return owned(seg);
    }
    if b.len() == 0 {
        return owned(seg);
    }
    let mut p = owned(base);
    if b[b.len() - 1] != '/' {
        push_char(&mut p, '/');
    }
    push_str(&mut p, seg);
    proof {
        assert(b@.last() == base@.last());
    }
    p
}

/// TDG configuration: the home directory, the directories and files derived
/// from it, lean mode and the embedding section.
#[derive(Debug, Clone)]
pub struct Config {
    /// Base home directory (default: `~/.hermes`).
    pub home: String,
    /// TDG directory: always `{home}/tdg`.
    pub tdg_dir: String,
    /// Database path (default: `{tdg_dir}/graph.db`).
    pub db_path: String,
    /// State directory (default: `{home}/state`).
    pub state_dir: String,
    /// Skills directory (default: `{home}/skills`).
    pub skills_dir: String,
    /// Lean mode flag.
    pub lean: bool,
    /// Embedding configuration section.
    pub embedding: EmbeddingSection,
}

/// A configuration as it was read from the environment and files, before
/// its paths are settled: the values read, the home directory with `~`
/// expanded, and which of the database, state and skills paths were set
/// explicitly.
pub struct LoadedConfig {
    pub raw: Config,
    pub home: String,
    pub db_overridden: bool,
    pub state_overridden: bool,
    pub skills_overridden: bool,
}

/// A configuration as a mathematical value.
pub struct ConfigView {
    pub home: Seq<char>,
    pub tdg_dir: Seq<char>,
    pub db_path: Seq<char>,
    pub state_dir: Seq<char>,
    pub skills_dir: Seq<char>,
    pub lean: bool,
    pub embedding: EmbeddingSection,
}

impl View for Config {
    type V = ConfigView;

    open spec fn view(&self) -> ConfigView {
        ConfigView {
            home: self.home@,
            tdg_dir: self.tdg_dir@,
            db_path: self.db_path@,
            state_dir: self.state_dir@,
            skills_dir: self.skills_dir@,
            lean: self.lean,
            embedding: self.embedding,
        }
    }
}

/// The configuration derived from a home directory with no overrides.
pub open spec fn config_for_home(home: Seq<char>) -> ConfigView {
    ConfigView {
        home,
        tdg_dir: path_join(home, "tdg"@),
        db_path: path_join(path_join(home, "tdg"@), "graph.db"@),
        state_dir: path_join(home, "state"@),
        skills_dir: path_join(home, "skills"@),
        lean: false,
        embedding: default_embedding(),
    }
}

/// The compiled defaults.
pub open spec fn default_config() -> ConfigView {
    config_for_home("~/.hermes"@)
}

/// The configuration once the loaded values are settled: `home` is the
/// expanded home, `tdg_dir` is always derived from it, and the database,
/// state and skills paths are derived from it unless they were overridden.
pub open spec fn settled_config(
    loaded: ConfigView,
    home: Seq<char>,
    db_overridden: bool,
    state_overridden: bool,
    skills_overridden: bool,
) -> ConfigView {
    ConfigView {
        home,
        tdg_dir: path_join(home, "tdg"@),
        db_path: if db_overridden { loaded.db_path } else { path_join(path_join(home, "tdg"@), "graph.db"@) },
        state_dir: if state_overridden { loaded.state_dir } else { path_join(home, "state"@) },
        skills_dir: if skills_overridden { loaded.skills_dir } else { path_join(home, "skills"@) },
        lean: loaded.lean,
        embedding: loaded.embedding,
    }
}

/// With no override present, settling derives every path from the home
/// directory alone: the configuration is that of its home, keeping the
/// loaded lean flag and embedding section.
pub proof fn lemma_settle_derives_from_home(loaded: ConfigView, home: Seq<char>)
    ensures
        settled_config(loaded, home, false, false, false)
            == (ConfigView { lean: loaded.lean, embedding: loaded.embedding, ..config_for_home(home) }),
{
}

/// Settling twice with the same home and overrides changes nothing more.
pub proof fn lemma_settle_idempotent(loaded: ConfigView, home: Seq<char>, db: bool, state: bool, skills: bool)
    ensures
        settled_config(settled_config(loaded, home, db, state, skills), home, db, state, skills)
            == settled_config(loaded, home, db, state, skills),
{
}

/// A path joined onto a non-empty base with a relative segment starts with the base.
pub proof fn lemma_join_extends_base(base: Seq<char>, seg: Seq<char>)
    requires
        base.len() > 0,
        !(seg.len() > 0 && seg[0] == '/'),
    ensures
        path_join(base, seg).subrange(0, base.len() as int) == base,
{
    let p = path_join(base, seg);
    if base.last() == '/' {
        assert(p.subrange(0, base.len() as int) =~= base);
    } else {
        assert(p.subrange(0, base.len() as int) =~= base);
    }
}

impl Config {
    /// The compiled defaults (`~/.hermes` home).
    pub fn defaults() -> (c: Self)
        ensures
            c@ == default_config(),
    {
        let home = owned("~/.hermes");
        let tdg_dir = join_path(&home, "tdg");
        let db_path = join_path(&tdg_dir, "graph.db");
        let state_dir = join_path(&home, "state");
        let skills_dir = join_path(&home, "skills");
        Config {
            home,
            tdg_dir,
            db_path,
            state_dir,
            skills_dir,
            lean: false,
            embedding: EmbeddingSection {
                model: EmbeddingModel::Minilm,
                quantization: EmbeddingQuantization::Q4,
                dimension: None,
            },
        }
    }

    /// Settle a loaded configuration: `expanded_home` replaces the home
    /// directory, the TDG directory is derived from it, and each of the
    /// database, state and skills paths is derived from it unless its
    /// override was present.
    pub fn settle(
        loaded: Config,
        expanded_home: String,
        db_overridden: bool,
        state_overridden: bool,
        skills_overridden: bool,
    ) -> (c: Self)
        ensures
            c@ == settled_config(loaded@, expanded_home@, db_overridden, state_overridden, skills_overridden),
    {
        let tdg_dir = join_path(&expanded_home, "tdg");
        let db_path = if db_overridden { loaded.db_path } else { join_path(&tdg_dir, "graph.db") };
        let state_dir = if state_overridden { loaded.state_dir } else { join_path(&expanded_home, "state") };
        let skills_dir = if skills_overridden { loaded.skills_dir } else { join_path(&expanded_home, "skills") };
        Config {
            home: expanded_home,
            tdg_dir,
            db_path,
            state_dir,
            skills_dir,
            lean: loaded.lean,
            embedding: loaded.embedding,
        }
    }

    /// The configuration from the environment: the loaded configuration,
    /// its paths settled, when loading succeeded; the compiled defaults
    /// otherwise. Either way the TDG directory is `{home}/tdg`.
    pub fn from_env(loaded: Option<LoadedConfig>) -> (c: Self)
        ensures
            c@ == match loaded {
                Some(l) => settled_config(l.raw@, l.home@, l.db_overridden, l.state_overridden, l.skills_overridden),
                None => default_config(),
            },
            c@.tdg_dir == path_join(c@.home, "tdg"@),
            loaded is None ==> c@.home == "~/.hermes"@ && c@.db_path == path_join(c@.tdg_dir, "graph.db"@),
    {
        match loaded {
            Some(l) => Self::settle(l.raw, l.home, l.db_overridden, l.state_overridden, l.skills_overridden),
            None => Self::defaults(),
        }
    }

    /// Build config with an explicit database path (useful for testing).
    pub fn with_db_path(loaded: Option<LoadedConfig>, db_path: String) -> (c: Self)
        ensures
            c@ == (ConfigView {
                db_path: db_path@,
                ..match loaded {
                    Some(l) => settled_config(l.raw@, l.home@, l.db_overridden, l.state_overridden, l.skills_overridden),
                    None => default_config(),
                }
            }),
    {
        let mut cfg = Self::from_env(loaded);
        cfg.db_path = db_path;
        cfg
    }

    /// Archive database path: `{tdg_dir}/graph/tdg_archive.db`
    pub fn archive_db_path(&self) -> (p: String)
        ensures
            p@ == path_join(path_join(self.tdg_dir@, "graph"@), "tdg_archive.db"@),
    {
        let g = join_path(&self.tdg_dir, "graph");
        join_path(&g, "tdg_archive.db")
    }

    /// Graph directory: `{tdg_dir}/graph`
    pub fn graph_dir(&self) -> (p: String)
        ensures
            p@ == path_join(self.tdg_dir@, "graph"@),
    {
        join_path(&self.tdg_dir, "graph")
    }

    /// Config directory: `{tdg_dir}/config`
    pub fn config_dir(&self) -> (p: String)
        ensures
            p@ == path_join(self.tdg_dir@, "config"@),
    {
        join_path(&self.tdg_dir, "config")
    }

    /// Snapshots directory: `{tdg_dir}/snapshots`
    pub fn snapshots_dir(&self) -> (p: String)
        ensures
            p@ == path_join(self.tdg_dir@, "snapshots"@),
    {
        join_path(&self.tdg_dir, "snapshots")
    }

    /// Working memory path: `{state_dir}/hermes-working-memory.json`
    pub fn working_memory_path(&self) -> (p: String)
        ensures
            p@ == path_join(self.state_dir@, "hermes-working-memory.json"@),
    {
        join_path(&self.state_dir, "hermes-working-memory.json")
    }

    /// Loop state path: `{state_dir}/hermes-loop-state.json`
    pub fn loop_state_path(&self) -> (p: String)
        ensures
            p@ == path_join(self.state_dir@, "hermes-loop-state.json"@),
    {
        join_path(&self.state_dir, "hermes-loop-state.json")
    }

    /// Embedding models directory: `{tdg_dir}/models`
    pub fn models_dir(&self) -> (p: String)
        ensures
            p@ == path_join(self.tdg_dir@, "models"@),
    {
        join_path(&self.tdg_dir, "models")
    }

    /// Full path to the ONNX embedding model file.
    pub fn embedding_model_path(&self) -> (p: String)
        ensures
            p@ == path_join(
                path_join(path_join(self.tdg_dir@, "models"@), model_dir_of(self.embedding)),
                onnx_filename_of(self.embedding),
            ),
    {
        let m = self.models_dir();
        let d = join_path(&m, self.embedding.model_dir_name());
        join_path(&d, self.embedding.onnx_filename())
    }

    /// Full path to the tokenizer file.
    pub fn embedding_tokenizer_path(&self) -> (p: String)
        ensures
            p@ == path_join(
                path_join(path_join(self.tdg_dir@, "models"@), model_dir_of(self.embedding)),
                "tokenizer.json"@,
            ),
    {
        let m = self.models_dir();
        let d = join_path(&m, self.embedding.model_dir_name());
        join_path(&d, "tokenizer.json")
    }

    /// Meta view cache path: `{state_dir}/hermes-meta-view-cache.json`
    pub fn meta_view_cache_path(&self) -> (p: String)
        ensures
            p@ == path_join(self.state_dir@, "hermes-meta-view-cache.json"@),
    {
        join_path(&self.state_dir, "hermes-meta-view-cache.json")
    }

    /// Constraints path: `{state_dir}/hermes-constraints.json`
    pub fn constraints_path(&self) -> (p: String)
        ensures
            p@ == path_join(self.state_dir@, "hermes-constraints.json"@),
    {
        join_path(&self.state_dir, "hermes-constraints.json")
    }

    /// Diagnostic thresholds path: `{config_dir}/diagnostic_thresholds.yaml`
    pub fn diagnostic_thresholds_path(&self) -> (p: String)
        ensures
            p@ == path_join(path_join(self.tdg_dir@, "config"@), "diagnostic_thresholds.yaml"@),
    {
        let c = self.config_dir();
        join_path(&c, "diagnostic_thresholds.yaml")
    }

    /// ONNX model path: the configured embedding model's file.
    pub fn onnx_model_path(&self) -> (p: String)
        ensures
            p@ == path_join(
                path_join(path_join(self.tdg_dir@, "models"@), model_dir_of(self.embedding)),
                onnx_filename_of(self.embedding),
            ),
    {
        self.embedding_model_path()
    }
}


/// `s` with every occurrence of `pat` replaced by `rep`, scanning from the
/// left and not overlapping, as `str::replace` does for a non-empty pattern.
pub open spec fn replace_all(s: Seq<char>, pat: Seq<char>, rep: Seq<char>) -> Seq<char>
    decreases s.len(),
{
    if pat.len() == 0 || s.len() < pat.len() {
        s
    } else if s.take(pat.len() as int) == pat {
        rep + replace_all(s.skip(pat.len() as int), pat, rep)
    } else {
        seq![s[0]] + replace_all(s.skip(1), pat, rep)
    }
}

/// The placeholder for the repository root in configuration files.
pub open spec fn repo_root_placeholder() -> Seq<char> {
    "{REPO_ROOT}"@
}

/// The text of a configuration file with every `{REPO_ROOT}` placeholder
/// replaced by the repository root `repo`.
pub fn resolve_repo_root(content: &str, repo: &str) -> (r: String)
    ensures
        r@ == replace_all(content@, repo_root_placeholder(), repo@),
{
    let v = chars_of(content);
    let pv = chars_of("{REPO_ROOT}");
    proof {
        reveal_strlit("{REPO_ROOT}");
    }
    assert(pv@.len() == 11);
    let ghost pat = pv@;
    let ghost whole = replace_all(v@, pat, repo@);
    let mut out = String::new();
    let mut i: usize = 0;
    assert(v@.skip(0) =~= v@);
    while i < v.len()
        invariant
            pat == pv@,
            pat.len() == 11,
            i <= v@.len(),
            whole == replace_all(v@, pat, repo@),
            out@ + replace_all(v@.skip(i as int), pat, repo@) == whole,
        decreases v.len() - i,
    {
        let ghost s = v@.skip(i as int);
        if occurs_at_exec(&v, &pv, i) {
            assert(s.take(11) =~= v@.subrange(i as int, i + 11));
            assert(s.skip(11) =~= v@.skip(i + 11));
            let ghost before = out@;
            push_str(&mut out, repo);
            assert(before + replace_all(s, pat, repo@) =~= out@ + replace_all(v@.skip(i + 11), pat, repo@));
            i = i + 11;
        } else {
            proof {
                assert(s.skip(1) =~= v@.skip(i + 1));
                if s.len() >= 11 {
                    assert(s.take(11) =~= v@.subrange(i as int, i + 11));
                    assert(s.take(11) != pat);
                } else {
                    assert(replace_all(s.skip(1), pat, repo@) == s.skip(1));
                    assert(s =~= seq![s[0]] + s.skip(1));
                }
            }
            let ghost before = out@;
            push_char(&mut out, v[i]);
            assert(before + replace_all(s, pat, repo@) =~= out@ + replace_all(v@.skip(i + 1), pat, repo@));
            i = i + 1;
        }
    }
    assert(v@.skip(i as int) =~= Seq::<char>::empty());
    assert(out@ + Seq::<char>::empty() =~= out@);
    out
}

} // verus!
