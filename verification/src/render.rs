//! The five artifact renderers: pure functions from a validated config to
//! one artifact's textual content.

use vstd::prelude::*;
use crate::config::ShenronConfig;
use crate::config::spec_collector_url;
use crate::errors::ShenronError;
use crate::json::{json_compact, spec_json_compact, spec_json_string};
use crate::json::push_json_string;
use crate::quote::{quote_arg, shell_quoted};
use crate::text::{dec_string, join_with, push_dec, spec_dec, spec_join_with, views_of};

verus! {

/// The metrics-scrape config: one static target at the inference server's
/// metrics port, a fixed 15-second interval, the fixed `/metrics` path.
pub open spec fn spec_prometheus(c: ShenronConfig) -> Seq<char> {
    "global:\n  scrape_interval: 15s\n\nscrape_configs:\n  - job_name: vllm\n    metrics_path: /metrics\n    static_configs:\n      - targets: [\"vllm:"@
        + spec_dec(c.vllm_port as int) + "\"]\n"@
}

/// Renders the metrics-scrape config.
pub fn render_prometheus_config(config: &ShenronConfig) -> (r: String)
    ensures
        r@ == spec_prometheus(*config),
{
    let mut out = String::new();
    out.append(
        "global:\n  scrape_interval: 15s\n\nscrape_configs:\n  - job_name: vllm\n    metrics_path: /metrics\n    static_configs:\n      - targets: [\"vllm:",
    );
    push_dec(&mut out, config.vllm_port as u64);
    out.append("\"]\n");
    proof {
        assert(out@ =~= spec_prometheus(*config));
    }
    out
}

/// The reporter environment file: fixed reporter mode and metrics-backend
/// URL, the derived collector URL, then interval, model name and ingest
/// key, one `KEY=VALUE` line each, in this order.
pub open spec fn spec_scouter_env(c: ShenronConfig) -> Seq<char> {
    "SCOUTER_MODE=reporter\nPROMETHEUS_URL=http://prometheus:9090\nCOLLECTOR_URL="@
        + spec_collector_url(c) + "\nREPORTER_INTERVAL="@ + spec_dec(
        c.scouter_reporter_interval as int,
    ) + "\nMODEL_NAME="@ + c.model_name@ + "\nSCOUTER_INGEST_API_KEY="@
        + c.scouter_ingest_api_key@ + "\n"@
}

/// Renders the reporter environment file.
pub fn render_scouter_reporter_env(config: &ShenronConfig) -> (r: String)
    ensures
        r@ == spec_scouter_env(*config),
{
    let mut out = String::new();
    out.append("SCOUTER_MODE=reporter\nPROMETHEUS_URL=http://prometheus:9090\nCOLLECTOR_URL=");
    let url = config.scouter_collector_url();
    out.append(url.as_str());
    out.append("\nREPORTER_INTERVAL=");
    push_dec(&mut out, config.scouter_reporter_interval as u64);
    out.append("\nMODEL_NAME=");
    out.append(config.model_name.as_str());
    out.append("\nSCOUTER_INGEST_API_KEY=");
    out.append(config.scouter_ingest_api_key.as_str());
    out.append("\n");
    proof {
        assert(out@ =~= spec_scouter_env(*config));
    }
    out
}

/// The upstream URL of the routing table: the inference server at its
/// fixed internal service name and configured port.
pub open spec fn spec_upstream_url(c: ShenronConfig) -> Seq<char> {
    "http://vllm:"@ + spec_dec(c.vllm_port as int) + "/v1"@
}

/// The routing table: pretty JSON mapping the model name to its upstream
/// URL, the single API key, and the model name again as the upstream model
/// identifier, keys in sorted order.
pub open spec fn spec_onwards(c: ShenronConfig) -> Seq<char> {
    "{\n  "@ + spec_json_string("targets"@) + ": {\n    "@ + spec_json_string(c.model_name@)
        + ": {\n      "@ + spec_json_string("keys"@) + ": [\n        "@ + spec_json_string(
        c.api_key@,
    ) + "\n      ],\n      "@ + spec_json_string("onwards_model"@) + ": "@ + spec_json_string(
        c.model_name@,
    ) + ",\n      "@ + spec_json_string("url"@) + ": "@ + spec_json_string(spec_upstream_url(c))
        + "\n    }\n  }\n}"@
}

/// Renders the routing table.
pub fn render_onwards_config(config: &ShenronConfig) -> (r: Result<String, ShenronError>)
    ensures
        r matches Ok(t) && t@ == spec_onwards(*config),
{
    let mut url = String::new();
    url.append("http://vllm:");
    push_dec(&mut url, config.vllm_port as u64);
    url.append("/v1");
    let mut out = String::new();
    out.append("{\n  ");
    push_json_string(&mut out, &String::from_str("targets"));
    out.append(": {\n    ");
    push_json_string(&mut out, &config.model_name);
    out.append(": {\n      ");
    push_json_string(&mut out, &String::from_str("keys"));
    out.append(": [\n        ");
    push_json_string(&mut out, &config.api_key);
    out.append("\n      ],\n      ");
    push_json_string(&mut out, &String::from_str("onwards_model"));
    out.append(": ");
    push_json_string(&mut out, &config.model_name);
    out.append(",\n      ");
    push_json_string(&mut out, &String::from_str("url"));
    out.append(": ");
    push_json_string(&mut out, &url);
    out.append("\n    }\n  }\n}");
    proof {
        assert(url@ =~= spec_upstream_url(*config));
        assert(out@ =~= spec_onwards(*config));
    }
    Ok(out)
}

/// The fully-expanded argument list of the launch script, in order, with
/// each boolean flag appended only when its toggle is on.
pub open spec fn spec_vllm_args(c: ShenronConfig) -> Seq<Seq<char>> {
    let base = seq![
        "--model"@,
        c.model_name@,
        "--port"@,
        spec_dec(c.vllm_port as int),
        "--host"@,
        c.vllm_host@,
        "--gpu-memory-utilization"@,
        c.gpu_memory_utilization@,
        "--tensor-parallel-size"@,
        spec_dec(c.tensor_parallel_size as int),
        "--limit-mm-per-prompt.video"@,
        spec_dec(c.limit_mm_per_prompt_video as int),
        "--scheduling-policy"@,
        c.scheduling_policy@,
        "--tool-call-parser"@,
        c.tool_call_parser@,
        "--generation-config"@,
        c.generation_config@,
        "--override-generation-config"@,
        spec_json_compact(c.override_generation_config),
    ];
    let w1 = if c.trust_remote_code {
        base.push("--trust-remote-code"@)
    } else {
        base
    };
    let w2 = if c.async_scheduling {
        w1.push("--async-scheduling"@)
    } else {
        w1
    };
    if c.enable_auto_tool_choice {
        w2.push("--enable-auto-tool-choice"@)
    } else {
        w2
    }
}

/// Every value the launch-script renderer must quote, in the order it
/// quotes them: the argument list, then the backend selection.
pub open spec fn spec_vllm_quoted_values(c: ShenronConfig) -> Seq<Seq<char>> {
    spec_vllm_args(c).push(c.vllm_flashinfer_moe_backend@)
}

/// The first value holding a NUL byte, if any.
pub open spec fn spec_first_nul(parts: Seq<Seq<char>>) -> Option<Seq<char>>
    decreases parts.len(),
{
    if parts.len() == 0 {
        None
    } else if parts[0].contains('\u{0}') {
        Some(parts[0])
    } else {
        spec_first_nul(parts.drop_first())
    }
}

proof fn lemma_first_nul_at(parts: Seq<Seq<char>>, i: int)
    requires
        0 <= i <= parts.len(),
        forall|k: int| 0 <= k < i ==> !(#[trigger] parts[k]).contains('\u{0}'),
        i < parts.len() ==> parts[i].contains('\u{0}'),
    ensures
        spec_first_nul(parts) == if i < parts.len() {
            Some(parts[i])
        } else {
            None::<Seq<char>>
        },
    decreases i,
{
    if parts.len() == 0 {
    } else if parts[0].contains('\u{0}') {
        assert(i == 0);
    } else {
        assert(i >= 1);
        lemma_first_nul_at(parts.drop_first(), i - 1);
    }
}

/// Quoting as a first-class function, for mapping over the argument list.
pub open spec fn quote_fn() -> spec_fn(Seq<char>) -> Seq<char> {
    |a: Seq<char>| shell_quoted(a)
}

/// The whole argument list, each value shell-quoted.
pub open spec fn spec_quote_all(parts: Seq<Seq<char>>) -> Seq<Seq<char>> {
    parts.map_values(quote_fn())
}

proof fn lemma_quote_all_push(s: Seq<Seq<char>>, x: Seq<char>)
    ensures
        spec_quote_all(s.push(x)) == spec_quote_all(s).push(shell_quoted(x)),
{
    let q = quote_fn();
    assert(q(x) == shell_quoted(x));
    assert forall|k: int| 0 <= k < s.len() + 1 implies #[trigger] spec_quote_all(s.push(x))[k]
        == spec_quote_all(s).push(shell_quoted(x))[k] by {
        if k < s.len() {
            assert(spec_quote_all(s)[k] == q(s[k]));
            assert(s.push(x)[k] == s[k]);
            assert(spec_quote_all(s.push(x))[k] == q(s.push(x)[k]));
        } else {
            assert(s.push(x)[k] == x);
            assert(spec_quote_all(s.push(x))[k] == q(x));
        }
    }
    assert(spec_quote_all(s.push(x)) =~= spec_quote_all(s).push(shell_quoted(x)));
}

/// The launch script: an interpreter directive, a strict-mode header, the
/// quoted backend selection exported, and the inference server invoked
/// with the fully-expanded quoted argument list.
pub open spec fn spec_vllm_script(c: ShenronConfig) -> Seq<char> {
    "#!/usr/bin/env bash\nset -euo pipefail\n\nexport VLLM_FLASHINFER_MOE_BACKEND="@
        + shell_quoted(c.vllm_flashinfer_moe_backend@) + "\nexec vllm serve "@ + spec_join_with(
        spec_quote_all(spec_vllm_args(c)),
        " "@,
    ) + "\n"@
}

/// Renders the launch script, or reports the first unquotable value.
#[verifier::loop_isolation(false)]
#[verifier::rlimit(100)]
pub fn render_vllm_start(config: &ShenronConfig) -> (r: Result<String, ShenronError>)
    ensures
        match spec_first_nul(spec_vllm_quoted_values(*config)) {
            Some(v) => r matches Err(ShenronError::Quote(w)) && w@ == v,
            None => r matches Ok(t) && t@ == spec_vllm_script(*config),
        },
{
    let override_json = json_compact(&config.override_generation_config);
    let mut args: Vec<String> = Vec::new();
    args.push(String::from_str("--model"));
    args.push(config.model_name.clone());
    args.push(String::from_str("--port"));
    args.push(dec_string(config.vllm_port as u64));
    args.push(String::from_str("--host"));
    args.push(config.vllm_host.clone());
    args.push(String::from_str("--gpu-memory-utilization"));
    args.push(config.gpu_memory_utilization.clone());
    args.push(String::from_str("--tensor-parallel-size"));
    args.push(dec_string(config.tensor_parallel_size as u64));
    args.push(String::from_str("--limit-mm-per-prompt.video"));
    args.push(dec_string(config.limit_mm_per_prompt_video as u64));
    args.push(String::from_str("--scheduling-policy"));
    args.push(config.scheduling_policy.clone());
    args.push(String::from_str("--tool-call-parser"));
    args.push(config.tool_call_parser.clone());
    args.push(String::from_str("--generation-config"));
    args.push(config.generation_config.clone());
    args.push(String::from_str("--override-generation-config"));
    args.push(override_json);
    if config.trust_remote_code {
        args.push(String::from_str("--trust-remote-code"));
    }
    if config.async_scheduling {
        args.push(String::from_str("--async-scheduling"));
    }
    if config.enable_auto_tool_choice {
        args.push(String::from_str("--enable-auto-tool-choice"));
    }
    proof {
        assert(views_of(args@) =~= spec_vllm_args(*config));
    }
    let ghost all = spec_vllm_quoted_values(*config);
    let mut quoted: Vec<String> = Vec::new();
    let mut i: usize = 0;
    proof {
        assert(views_of(quoted@) =~= spec_quote_all(views_of(args@).take(0)));
    }
    while i < args.len()
        invariant
            i <= args@.len(),
            forall|k: int| 0 <= k < i ==> !(#[trigger] views_of(args@)[k]).contains('\u{0}'),
            views_of(quoted@) == spec_quote_all(views_of(args@).take(i as int)),
        decreases args@.len() - i,
    {
        match quote_arg(&args[i]) {
            Ok(q) => {
                quoted.push(q);
                proof {
                    let av = views_of(args@);
                    assert(av.take(i + 1) =~= av.take(i as int).push(av[i as int]));
                    lemma_quote_all_push(av.take(i as int), av[i as int]);
                    assert(views_of(quoted@) =~= spec_quote_all(av.take(i as int)).push(
                        shell_quoted(av[i as int]),
                    ));
                }
            },
            Err(e) => {
                proof {
                    assert(all[i as int] == views_of(args@)[i as int]);
                    lemma_first_nul_at(all, i as int);
                }
                return Err(e);
            },
        }
        i = i + 1;
    }
    let backend = match quote_arg(&config.vllm_flashinfer_moe_backend) {
        Ok(q) => q,
        Err(e) => {
            proof {
                lemma_first_nul_at(all, args@.len() as int);
            }
            return Err(e);
        },
    };
    proof {
        lemma_first_nul_at(all, all.len() as int);
        assert(views_of(args@).take(args@.len() as int) =~= views_of(args@));
    }
    let joined = join_with(&quoted, " ");
    let mut out = String::new();
    out.append("#!/usr/bin/env bash\nset -euo pipefail\n\nexport VLLM_FLASHINFER_MOE_BACKEND=");
    out.append(backend.as_str());
    out.append("\nexec vllm serve ");
    out.append(joined.as_str());
    out.append("\n");
    proof {
        assert(out@ =~= spec_vllm_script(*config));
    }
    Ok(out)
}

/// The orchestration manifest: four services wired together, image tags
/// and published ports substituted byte-exactly from the config.
pub open spec fn spec_compose(c: ShenronConfig) -> Seq<char> {
    "name: shenron-cu"@ + spec_dec(c.cuda_version as int)
        + "\n\nservices:\n  vllm:\n    image: ghcr.io/doublewordai/shenron:"@
        + c.shenron_version@ + "-cu"@ + spec_dec(c.cuda_version as int)
        + "\n    restart: unless-stopped\n    ulimits:\n      nofile:\n        soft: 65535\n        hard: 524288\n    command: [\"bash\",\"-lc\",\"source /opt/shenron/.venv/bin/activate && exec bash /generated/vllm_start.sh\"]\n    volumes:\n      - $HOME/.cache/huggingface:/root/.cache/huggingface\n      - ./.generated:/generated:ro\n    deploy:\n      resources:\n        reservations:\n          devices:\n            - capabilities: [gpu]\n\n  onwards:\n    image: ghcr.io/doublewordai/onwards:"@
        + c.onwards_version@
        + "\n    depends_on:\n      - vllm\n    command: [\"--targets\",\"/generated/onwards_config.json\",\"--port\",\""@
        + spec_dec(c.onwards_port as int) + "\"]\n    volumes:\n      - ./.generated:/generated:ro\n    ports:\n      - \""@
        + spec_dec(c.onwards_port as int) + ":"@ + spec_dec(c.onwards_port as int)
        + "\"\n\n  prometheus:\n    image: prom/prometheus:"@ + c.prometheus_version@
        + "\n    depends_on:\n      - vllm\n    volumes:\n      - ./.generated/prometheus.yml:/etc/prometheus/prometheus.yml:ro\n    ports:\n      - \""@
        + spec_dec(c.prometheus_port as int) + ":"@ + spec_dec(c.prometheus_port as int)
        + "\"\n\n  scouter-reporter:\n    image: ghcr.io/doublewordai/scouter:"@
        + c.scouter_version@
        + "\n    restart: unless-stopped\n    depends_on:\n      - prometheus\n    env_file:\n      - ./.generated/scouter_reporter.env\n    extra_hosts:\n      - \"host.docker.internal:host-gateway\"\n"@
}

/// Renders the orchestration manifest.
#[verifier::rlimit(60)]
pub fn render_compose(config: &ShenronConfig) -> (r: String)
    ensures
        r@ == spec_compose(*config),
{
    let mut out = String::new();
    out.append("name: shenron-cu");
    push_dec(&mut out, config.cuda_version as u64);
    out.append("\n\nservices:\n  vllm:\n    image: ghcr.io/doublewordai/shenron:");
    out.append(config.shenron_version.as_str());
    out.append("-cu");
    push_dec(&mut out, config.cuda_version as u64);
    out.append(
        "\n    restart: unless-stopped\n    ulimits:\n      nofile:\n        soft: 65535\n        hard: 524288\n    command: [\"bash\",\"-lc\",\"source /opt/shenron/.venv/bin/activate && exec bash /generated/vllm_start.sh\"]\n    volumes:\n      - $HOME/.cache/huggingface:/root/.cache/huggingface\n      - ./.generated:/generated:ro\n    deploy:\n      resources:\n        reservations:\n          devices:\n            - capabilities: [gpu]\n\n  onwards:\n    image: ghcr.io/doublewordai/onwards:",
    );
    out.append(config.onwards_version.as_str());
    out.append(
        "\n    depends_on:\n      - vllm\n    command: [\"--targets\",\"/generated/onwards_config.json\",\"--port\",\"",
    );
    push_dec(&mut out, config.onwards_port as u64);
    out.append("\"]\n    volumes:\n      - ./.generated:/generated:ro\n    ports:\n      - \"");
    push_dec(&mut out, config.onwards_port as u64);
    out.append(":");
    push_dec(&mut out, config.onwards_port as u64);
    out.append("\"\n\n  prometheus:\n    image: prom/prometheus:");
    out.append(config.prometheus_version.as_str());
    out.append(
        "\n    depends_on:\n      - vllm\n    volumes:\n      - ./.generated/prometheus.yml:/etc/prometheus/prometheus.yml:ro\n    ports:\n      - \"",
    );
    push_dec(&mut out, config.prometheus_port as u64);
    out.append(":");
    push_dec(&mut out, config.prometheus_port as u64);
    out.append("\"\n\n  scouter-reporter:\n    image: ghcr.io/doublewordai/scouter:");
    out.append(config.scouter_version.as_str());
    out.append(
        "\n    restart: unless-stopped\n    depends_on:\n      - prometheus\n    env_file:\n      - ./.generated/scouter_reporter.env\n    extra_hosts:\n      - \"host.docker.internal:host-gateway\"\n",
    );
    proof {
        assert(out@ =~= spec_compose(*config));
    }
    out
}

} // verus!
