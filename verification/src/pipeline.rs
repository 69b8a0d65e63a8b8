//! The pipeline orchestrator: resolve, load, render all five artifacts and
//! lay out what must be written where. The file system itself is outside
//! this library; callers hand in what it reports (the target's kind and
//! directory listing, the read and parsed document) and carry out the
//! returned plan with an atomic write per artifact.

use vstd::prelude::*;
use crate::config::{ShenronConfig, spec_valid_config, spec_validation_message};
use crate::errors::ShenronError;
use crate::render::{
    render_compose, render_onwards_config, render_prometheus_config, render_scouter_reporter_env,
    render_vllm_start, spec_compose, spec_first_nul, spec_onwards, spec_prometheus,
    spec_scouter_env, spec_vllm_quoted_values, spec_vllm_script,
};
use crate::resolve::{Resolution, TargetView, resolve_config_path, spec_resolve_dir};
use crate::text::{join_path, spec_join_path, views_of};

verus! {

/// One rendered output file: where it goes, what it holds, and whether it
/// must carry the executable mode.
#[derive(Debug)]
pub struct Artifact {
    pub path: String,
    pub content: String,
    pub executable: bool,
}

/// Everything a `generate` run materializes: the directories to create
/// (in order), the artifacts to write atomically (in write order), and
/// the produced paths in the order they are reported back.
#[derive(Debug)]
pub struct GeneratePlan {
    pub dirs: Vec<String>,
    pub artifacts: Vec<Artifact>,
    pub written_paths: Vec<String>,
}

/// What reading and parsing the resolved config document yielded.
pub enum LoadInput {
    /// The file could not be read; carries the underlying cause.
    ReadFailed(String),
    /// The document could not be parsed (unknown keys included); carries
    /// the underlying cause.
    ParseFailed(String),
    /// The parsed config, not yet validated.
    Parsed(ShenronConfig),
}

/// The hidden subdirectory holding the non-manifest artifacts.
pub open spec fn spec_generated_dir(out: Seq<char>) -> Seq<char> {
    spec_join_path(out, ".generated"@)
}

/// What a correct plan for config `c` and output directory `out` holds:
/// the two directories, and the five artifacts with their exact rendered
/// contents (only the launch script executable), in the one fixed order
/// that serves both for writing and for reporting the produced paths:
/// the manifest at the output root, then the four hidden artifacts.
pub open spec fn spec_plan_ok(c: ShenronConfig, out: Seq<char>, plan: GeneratePlan) -> bool {
    let gdir = spec_generated_dir(out);
    let onwards_path = spec_join_path(gdir, "onwards_config.json"@);
    let prometheus_path = spec_join_path(gdir, "prometheus.yml"@);
    let env_path = spec_join_path(gdir, "scouter_reporter.env"@);
    let script_path = spec_join_path(gdir, "vllm_start.sh"@);
    let compose_path = spec_join_path(out, "docker-compose.yml"@);
    &&& plan.dirs@.len() == 2
    &&& plan.dirs@[0]@ == out && plan.dirs@[1]@ == gdir
    &&& plan.artifacts@.len() == 5
    &&& plan.artifacts@[0].path@ == compose_path && plan.artifacts@[0].content@ == spec_compose(
        c,
    ) && !plan.artifacts@[0].executable
    &&& plan.artifacts@[1].path@ == onwards_path && plan.artifacts@[1].content@ == spec_onwards(
        c,
    ) && !plan.artifacts@[1].executable
    &&& plan.artifacts@[2].path@ == prometheus_path && plan.artifacts@[2].content@
        == spec_prometheus(c) && !plan.artifacts@[2].executable
    &&& plan.artifacts@[3].path@ == env_path && plan.artifacts@[3].content@ == spec_scouter_env(
        c,
    ) && !plan.artifacts@[3].executable
    &&& plan.artifacts@[4].path@ == script_path && plan.artifacts@[4].content@
        == spec_vllm_script(c) && plan.artifacts@[4].executable
    &&& views_of(plan.written_paths@) =~= seq![
        compose_path,
        onwards_path,
        prometheus_path,
        env_path,
        script_path,
    ]
}

/// Maps what reading and parsing yielded into the typed error taxonomy,
/// then validates the parsed config.
pub fn load_config(path: &String, input: LoadInput) -> (r: Result<ShenronConfig, ShenronError>)
    ensures
        (input matches LoadInput::ReadFailed(c) ==> (r matches Err(
            ShenronError::ReadFile { path: p, cause },
        ) && p@ == path@ && cause@ == c@)),
        (input matches LoadInput::ParseFailed(c) ==> (r matches Err(
            ShenronError::ParseConfig { path: p, cause },
        ) && p@ == path@ && cause@ == c@)),
        (input matches LoadInput::Parsed(cfg) ==> {
            &&& r is Ok <==> spec_valid_config(cfg)
            &&& (r matches Ok(out) ==> out == cfg)
            &&& (!spec_valid_config(cfg) ==> (r matches Err(ShenronError::Validation(m)) && m@
                == spec_validation_message(cfg)))
        }),
{
    match input {
        LoadInput::ReadFailed(cause) => Err(
            ShenronError::ReadFile { path: path.clone(), cause },
        ),
        LoadInput::ParseFailed(cause) => Err(
            ShenronError::ParseConfig { path: path.clone(), cause },
        ),
        LoadInput::Parsed(cfg) => {
            match cfg.validate() {
                Ok(()) => Ok(cfg),
                Err(e) => Err(e),
            }
        },
    }
}

/// The output directory when the caller names none: a directory target is
/// its own output directory; for a file target the config file's parent
/// directory serves, or the current directory where it has none.
pub fn default_output_dir(target: &String, target_is_dir: bool, config_path_parent: &Option<
    String,
>) -> (r: String)
    ensures
        target_is_dir ==> r@ == target@,
        !target_is_dir ==> (match *config_path_parent {
            Some(p) => r@ == p@,
            None => r@ == "."@,
        }),
{
    if target_is_dir {
        target.clone()
    } else {
        match config_path_parent {
            Some(p) => p.clone(),
            None => String::from_str("."),
        }
    }
}

/// Renders all five artifacts for `config` and lays out the plan for
/// `output_dir`. Fails only where the launch script cannot be rendered.
pub fn generate(config: &ShenronConfig, output_dir: &String) -> (r: Result<
    GeneratePlan,
    ShenronError,
>)
    ensures
        match spec_first_nul(spec_vllm_quoted_values(*config)) {
            Some(v) => r matches Err(ShenronError::Quote(w)) && w@ == v,
            None => r matches Ok(plan) && spec_plan_ok(*config, output_dir@, plan),
        },
{
    let generated_dir = join_path(output_dir.as_str(), ".generated");
    let onwards_path = join_path(generated_dir.as_str(), "onwards_config.json");
    let prometheus_path = join_path(generated_dir.as_str(), "prometheus.yml");
    let env_path = join_path(generated_dir.as_str(), "scouter_reporter.env");
    let script_path = join_path(generated_dir.as_str(), "vllm_start.sh");
    let compose_path = join_path(output_dir.as_str(), "docker-compose.yml");

    let onwards_text = match render_onwards_config(config) {
        Ok(t) => t,
        Err(e) => return Err(e),
    };
    let script_text = match render_vllm_start(config) {
        Ok(t) => t,
        Err(e) => return Err(e),
    };
    let mut dirs: Vec<String> = Vec::new();
    dirs.push(output_dir.clone());
    dirs.push(generated_dir);
    let mut artifacts: Vec<Artifact> = Vec::new();
    artifacts.push(
        Artifact {
            path: compose_path.clone(),
            content: render_compose(config),
            executable: false,
        },
    );
    artifacts.push(
        Artifact { path: onwards_path.clone(), content: onwards_text, executable: false },
    );
    artifacts.push(
        Artifact {
            path: prometheus_path.clone(),
            content: render_prometheus_config(config),
            executable: false,
        },
    );
    artifacts.push(
        Artifact {
            path: env_path.clone(),
            content: render_scouter_reporter_env(config),
            executable: false,
        },
    );
    artifacts.push(Artifact { path: script_path.clone(), content: script_text, executable: true });
    let mut written_paths: Vec<String> = Vec::new();
    written_paths.push(compose_path);
    written_paths.push(onwards_path);
    written_paths.push(prometheus_path);
    written_paths.push(env_path);
    written_paths.push(script_path);
    Ok(GeneratePlan { dirs, artifacts, written_paths })
}

/// The whole pipeline over what the file system reported: resolve the
/// config document, map and validate what was loaded, pick the effective
/// output directory, and lay out the plan.
///
/// `target_parent` is the target path's parent directory, as the
/// platform's path rules give it; it matters only for a file target with
/// no explicit output directory.
pub fn generate_from_target(
    target: &String,
    view: &TargetView,
    output_dir: Option<&String>,
    target_parent: &Option<String>,
    doc: LoadInput,
) -> (r: Result<GeneratePlan, ShenronError>)
    ensures
        ({
            let out = match output_dir {
                Some(d) => d@,
                None => match *view {
                    TargetView::Dir { .. } => target@,
                    _ => match *target_parent {
                        Some(p) => p@,
                        None => "."@,
                    },
                },
            };
            match *view {
                TargetView::Missing => r matches Err(ShenronError::MissingTarget(p)) && p@
                    == target@,
                TargetView::File => spec_after_resolve(target@, out, doc, r),
                TargetView::Dir { ref file_names } => match spec_resolve_dir(
                    target@,
                    views_of(file_names@),
                ) {
                    Resolution::NoCandidate => r matches Err(ShenronError::MissingConfig(p))
                        && p@ == target@,
                    Resolution::Ambiguous(files) => r matches Err(
                        ShenronError::AmbiguousConfig { dir, files: f },
                    ) && dir@ == target@ && f@ == files,
                    Resolution::Chosen(path) => spec_after_resolve(path, out, doc, r),
                },
            }
        }),
{
    let config_path = match resolve_config_path(target, view) {
        Ok(p) => p,
        Err(e) => return Err(e),
    };
    let config = match load_config(&config_path, doc) {
        Ok(c) => c,
        Err(e) => return Err(e),
    };
    let is_dir = match view {
        TargetView::Dir { .. } => true,
        _ => false,
    };
    let out_dir = match output_dir {
        Some(d) => d.clone(),
        None => default_output_dir(target, is_dir, target_parent),
    };
    generate(&config, &out_dir)
}

/// What the pipeline returns once the config document at `path` is
/// chosen: the load outcome is mapped to its typed error, an invalid
/// config is reported, and a valid one yields the exact plan for `out`
/// unless an argument value cannot be quoted.
pub open spec fn spec_after_resolve(
    path: Seq<char>,
    out: Seq<char>,
    doc: LoadInput,
    r: Result<GeneratePlan, ShenronError>,
) -> bool {
    &&& (doc matches LoadInput::ReadFailed(c) ==> (r matches Err(
        ShenronError::ReadFile { path: p, cause },
    ) && p@ == path && cause@ == c@))
    &&& (doc matches LoadInput::ParseFailed(c) ==> (r matches Err(
        ShenronError::ParseConfig { path: p, cause },
    ) && p@ == path && cause@ == c@))
    &&& (doc matches LoadInput::Parsed(cfg) ==> {
        if !spec_valid_config(cfg) {
            r matches Err(ShenronError::Validation(m)) && m@ == spec_validation_message(cfg)
        } else {
            match spec_first_nul(spec_vllm_quoted_values(cfg)) {
                Some(v) => r matches Err(ShenronError::Quote(w)) && w@ == v,
                None => r matches Ok(plan) && spec_plan_ok(cfg, out, plan),
            }
        }
    })
}

} // verus!
