//! The config model: every tunable field with a total default, and the
//! validation predicate that every loaded config must pass.

use vstd::prelude::*;
use crate::errors::ShenronError;
use crate::json::{JsonMember, JsonValue};

verus! {

/// Whether a character beyond ASCII has the Unicode `White_Space`
/// property.
pub uninterp spec fn char_is_whitespace_ext(c: char) -> bool;

/// Whether `c` has the Unicode `White_Space` property. Within ASCII these
/// are exactly tab, line feed, vertical tab, form feed, carriage return
/// and space.
pub open spec fn char_is_whitespace(c: char) -> bool {
    if (c as u32) < 128 {
        (9 <= (c as u32) <= 13) || c == ' '
    } else {
        char_is_whitespace_ext(c)
    }
}

/// Relies on char::is_whitespace: whether `c` has the Unicode White_Space
/// property, a function of the character alone.
pub assume_specification[ char::is_whitespace ](c: char) -> (r: bool)
    ensures
        r == char_is_whitespace(c),
        (c as u32) >= 128 ==> r == char_is_whitespace_ext(c),
;

/// Whether `s` still holds a character after trimming whitespace.
pub open spec fn spec_trimmed_nonempty(s: Seq<char>) -> bool {
    exists|i: int| 0 <= i < s.len() && !char_is_whitespace(s[i])
}

/// Decides `spec_trimmed_nonempty`.
pub fn trimmed_nonempty(s: &String) -> (r: bool)
    ensures
        r == spec_trimmed_nonempty(s@),
{
    let n: usize = s.as_str().unicode_len();
    let mut i: usize = 0;
    while i < n
        invariant
            i <= n,
            n == s@.len(),
            forall|k: int| 0 <= k < i ==> char_is_whitespace(s@[k]),
        decreases n - i,
    {
        let c = s.as_str().get_char(i);
        if !c.is_whitespace() {
            proof {
                assert(!char_is_whitespace(s@[i as int]));
            }
            return true;
        }
        i = i + 1;
    }
    false
}

/// Whether `c` is a decimal digit.
pub open spec fn spec_is_digit(c: char) -> bool {
    ('0' as u32) <= (c as u32) <= ('9' as u32)
}

/// The value of a decimal digit.
pub open spec fn spec_digit_value(c: char) -> int {
    (c as u32) - ('0' as u32)
}

pub open spec fn spec_all_digits(s: Seq<char>) -> bool {
    forall|i: int| 0 <= i < s.len() ==> spec_is_digit(#[trigger] s[i])
}

pub open spec fn spec_all_zeros(s: Seq<char>) -> bool {
    forall|i: int| 0 <= i < s.len() ==> #[trigger] s[i] == '0'
}

/// The integer a digit string denotes, most significant digit first.
pub open spec fn spec_digits_value(s: Seq<char>) -> int
    decreases s.len(),
{
    if s.len() == 0 {
        0
    } else {
        10 * spec_digits_value(s.drop_last()) + spec_digit_value(s.last())
    }
}

/// The index of the first `.` in `s`, or `s.len()` if there is none.
pub open spec fn spec_dot_pos(s: Seq<char>) -> int
    decreases s.len(),
{
    if s.len() == 0 {
        0
    } else if s[0] == '.' {
        0
    } else {
        1 + spec_dot_pos(s.drop_first())
    }
}

/// Whether `s` is a decimal numeral denoting a value in the closed
/// interval [0, 1]: an optional minus sign (only before an all-zero
/// numeral), a nonempty integer part, and optionally a dot followed by a
/// nonempty fraction.
pub open spec fn spec_unit_interval_decimal(s: Seq<char>) -> bool {
    let neg = s.len() > 0 && s[0] == '-';
    let t = if neg {
        s.drop_first()
    } else {
        s
    };
    let p = spec_dot_pos(t);
    let ip = t.take(p);
    let has_dot = p < t.len();
    let fp = if has_dot {
        t.skip(p + 1)
    } else {
        Seq::empty()
    };
    &&& ip.len() > 0
    &&& spec_all_digits(ip)
    &&& has_dot ==> fp.len() > 0 && spec_all_digits(fp)
    &&& neg ==> spec_all_zeros(ip) && spec_all_zeros(fp)
    &&& (spec_digits_value(ip) == 0 || (spec_digits_value(ip) == 1 && spec_all_zeros(fp)))
}

proof fn lemma_dot_pos_at(t: Seq<char>, k: int)
    requires
        0 <= k <= t.len(),
        forall|i: int| 0 <= i < k ==> t[i] != '.',
        k < t.len() ==> t[k] == '.',
    ensures
        spec_dot_pos(t) == k,
    decreases k,
{
    if k == 0 {
    } else {
        assert(t[0] != '.');
        lemma_dot_pos_at(t.drop_first(), k - 1);
    }
}

proof fn lemma_digits_value_nonneg(s: Seq<char>)
    requires
        spec_all_digits(s),
    ensures
        spec_digits_value(s) >= 0,
    decreases s.len(),
{
    if s.len() > 0 {
        assert(spec_all_digits(s.drop_last()));
        lemma_digits_value_nonneg(s.drop_last());
    }
}

/// Decides `spec_unit_interval_decimal`.
#[verifier::loop_isolation(false)]
#[verifier::rlimit(100)]
pub fn is_unit_interval_decimal(s: &String) -> (r: bool)
    ensures
        r == spec_unit_interval_decimal(s@),
{
    let n: usize = s.as_str().unicode_len();
    let neg = n > 0 && s.as_str().get_char(0) == '-';
    let start: usize = if neg {
        1
    } else {
        0
    };
    let ghost t = if neg {
        s@.drop_first()
    } else {
        s@
    };
    proof {
        assert(t.len() == n - start);
        assert(forall|k: int| 0 <= k < t.len() ==> t[k] == s@[k + start]);
    }
    // find the first dot
    let mut d: usize = start;
    let mut found_dot = false;
    while !found_dot && d < n
        invariant
            start <= d <= n,
            forall|k: int| start <= k < d ==> s@[k] != '.',
            found_dot ==> d < n && s@[d as int] == '.',
        decreases n - d + (if found_dot {
            0int
        } else {
            1int
        }),
    {
        if s.as_str().get_char(d) == '.' {
            found_dot = true;
        } else {
            d = d + 1;
        }
    }
    proof {
        lemma_dot_pos_at(t, d - start);
    }
    let ghost p = spec_dot_pos(t);
    let ghost ip = t.take(p);
    if d == start {
        // empty integer part (or a lone minus sign)
        return false;
    }
    // scan the integer part
    let mut i: usize = start;
    let mut val01: u8 = 0;
    let mut ip_zeros = true;
    while i < d
        invariant
            start <= i <= d,
            spec_all_digits(t.take(i - start)),
            ip_zeros == spec_all_zeros(t.take(i - start)),
            val01 as int == if spec_digits_value(t.take(i - start)) >= 2 {
                2int
            } else {
                spec_digits_value(t.take(i - start))
            },
        decreases d - i,
    {
        let c = s.as_str().get_char(i);
        let cu = c as u32;
        if cu < 48 || cu > 57 {
            proof {
                assert(ip[i - start] == s@[i as int]);
                assert(!spec_is_digit(ip[i - start]));
            }
            return false;
        }
        let dv: u8 = (cu - 48) as u8;
        let nv: u8 = if val01 >= 2 {
            2
        } else if val01 * 10 + dv > 2 {
            2
        } else {
            val01 * 10 + dv
        };
        proof {
            let pre = t.take(i - start);
            let post = t.take(i + 1 - start);
            assert(post.drop_last() =~= pre);
            assert(post.last() == s@[i as int]);
            lemma_digits_value_nonneg(pre);
            assert(spec_digits_value(post) == 10 * spec_digits_value(pre) + dv);
        }
        val01 = nv;
        ip_zeros = ip_zeros && c == '0';
        i = i + 1;
    }
    proof {
        assert(t.take(d - start) =~= ip);
    }
    // scan the fraction, if a dot was found
    let mut fp_zeros = true;
    if found_dot {
        if d + 1 == n {
            // a dot with nothing after it
            proof {
                assert(t.skip(p + 1).len() == 0);
            }
            return false;
        }
        let mut j: usize = d + 1;
        while j < n
            invariant
                d + 1 <= j <= n,
                spec_all_digits(t.skip(p + 1).take(j - d - 1)),
                fp_zeros == spec_all_zeros(t.skip(p + 1).take(j - d - 1)),
            decreases n - j,
        {
            let c = s.as_str().get_char(j);
            let cu = c as u32;
            if cu < 48 || cu > 57 {
                proof {
                    assert(t.skip(p + 1)[j - d - 1] == s@[j as int]);
                    assert(!spec_is_digit(t.skip(p + 1)[j - d - 1]));
                }
                return false;
            }
            proof {
                let fpre = t.skip(p + 1).take(j - d - 1);
                let fpost = t.skip(p + 1).take(j - d);
                assert(fpost.drop_last() =~= fpre);
                assert(fpost.last() == s@[j as int]);
            }
            fp_zeros = fp_zeros && c == '0';
            j = j + 1;
        }
        proof {
            assert(t.skip(p + 1).take(n - d - 1) =~= t.skip(p + 1));
        }
    }
    let ok = (!neg || (ip_zeros && fp_zeros)) && (val01 == 0 || (val01 == 1 && fp_zeros));
    proof {
        if !found_dot {
            assert(p == t.len());
            assert(t.skip(p + 1).len() == 0 || true);
        }
        lemma_digits_value_nonneg(ip);
    }
    ok
}


/// The config model: a flat record of every tunable field. The GPU memory
/// fraction is carried as its decimal numeral text; the override blob is a
/// JSON value passed through opaquely.
#[derive(Debug)]
pub struct ShenronConfig {
    pub model_name: String,
    pub cuda_version: u16,
    pub tensor_parallel_size: u16,
    pub shenron_version: String,
    pub onwards_version: String,
    pub api_key: String,
    pub vllm_flashinfer_moe_backend: String,
    pub vllm_port: u16,
    pub vllm_host: String,
    pub onwards_port: u16,
    pub prometheus_port: u16,
    pub prometheus_version: String,
    pub scouter_version: String,
    pub scouter_collector_instance: String,
    pub scouter_collector_url: Option<String>,
    pub scouter_reporter_interval: u32,
    pub scouter_ingest_api_key: String,
    pub gpu_memory_utilization: String,
    pub limit_mm_per_prompt_video: u32,
    pub scheduling_policy: String,
    pub tool_call_parser: String,
    pub generation_config: String,
    pub override_generation_config: JsonValue,
    pub trust_remote_code: bool,
    pub async_scheduling: bool,
    pub enable_auto_tool_choice: bool,
}

/// The invariants a loaded config must satisfy.
pub open spec fn spec_valid_config(c: ShenronConfig) -> bool {
    &&& spec_trimmed_nonempty(c.model_name@)
    &&& spec_trimmed_nonempty(c.shenron_version@)
    &&& c.tensor_parallel_size >= 1
    &&& spec_unit_interval_decimal(c.gpu_memory_utilization@)
}

/// The derived metrics-collector URL: the explicit override if one was
/// supplied, else the collector instance at the fixed collector port.
pub open spec fn spec_collector_url(c: ShenronConfig) -> Seq<char> {
    match c.scouter_collector_url {
        Some(u) => u@,
        None => "http://"@ + c.scouter_collector_instance@ + ":4321"@,
    }
}

/// Whether every field of `c` holds its default value.
pub open spec fn spec_is_default_config(c: ShenronConfig) -> bool {
    &&& c.model_name@ == "Qwen/Qwen3-0.6B"@
    &&& c.cuda_version == 126
    &&& c.tensor_parallel_size == 1
    &&& c.shenron_version@ == "latest"@
    &&& c.onwards_version@ == "latest"@
    &&& c.api_key@ == "sk-"@
    &&& c.vllm_flashinfer_moe_backend@ == "throughput"@
    &&& c.vllm_port == 8000
    &&& c.vllm_host@ == "0.0.0.0"@
    &&& c.onwards_port == 3000
    &&& c.prometheus_port == 9090
    &&& c.prometheus_version@ == "v2.51.2"@
    &&& c.scouter_version@ == "latest"@
    &&& c.scouter_collector_instance@ == "host.docker.internal"@
    &&& c.scouter_collector_url is None
    &&& c.scouter_reporter_interval == 10
    &&& c.scouter_ingest_api_key@ == "api-key"@
    &&& c.gpu_memory_utilization@ == "0.7"@
    &&& c.limit_mm_per_prompt_video == 0
    &&& c.scheduling_policy@ == "priority"@
    &&& c.tool_call_parser@ == "hermes"@
    &&& c.generation_config@ == "auto"@
    &&& spec_is_default_override(c.override_generation_config)
    &&& c.trust_remote_code == true
    &&& c.async_scheduling == true
    &&& c.enable_auto_tool_choice == true
}

/// The default override blob: the generation parameters, keys in sorted
/// order as the document format writes them.
pub open spec fn spec_is_default_override(v: JsonValue) -> bool {
    &&& v matches JsonValue::Obj(members)
    &&& members@.len() == 6
    &&& members@[0].key@ == "max_new_tokens"@
    &&& (members@[0].value matches JsonValue::Num(x) && x@ == "16384"@)
    &&& members@[1].key@ == "min_p"@
    &&& (members@[1].value matches JsonValue::Num(x) && x@ == "0"@)
    &&& members@[2].key@ == "presence_penalty"@
    &&& (members@[2].value matches JsonValue::Num(x) && x@ == "1.5"@)
    &&& members@[3].key@ == "temperature"@
    &&& (members@[3].value matches JsonValue::Num(x) && x@ == "0.7"@)
    &&& members@[4].key@ == "top_k"@
    &&& (members@[4].value matches JsonValue::Num(x) && x@ == "20"@)
    &&& members@[5].key@ == "top_p"@
    &&& (members@[5].value matches JsonValue::Num(x) && x@ == "0.8"@)
}

/// The message naming the first violated invariant of an invalid config.
pub open spec fn spec_validation_message(c: ShenronConfig) -> Seq<char> {
    if !spec_trimmed_nonempty(c.model_name@) {
        "model_name must be set"@
    } else if !spec_trimmed_nonempty(c.shenron_version@) {
        "shenron_version must be set"@
    } else if c.tensor_parallel_size == 0 {
        "tensor_parallel_size must be greater than 0"@
    } else {
        "gpu_memory_utilization must be between 0 and 1"@
    }
}

impl Default for ShenronConfig {
    /// The total default: an absent document still yields this fully-valid
    /// config.
    fn default() -> (c: Self)
        ensures
            spec_is_default_config(c),
    {
        let mut members: Vec<JsonMember> = Vec::new();
        members.push(
            JsonMember {
                key: String::from_str("max_new_tokens"),
                value: JsonValue::Num(String::from_str("16384")),
            },
        );
        members.push(
            JsonMember {
                key: String::from_str("min_p"),
                value: JsonValue::Num(String::from_str("0")),
            },
        );
        members.push(
            JsonMember {
                key: String::from_str("presence_penalty"),
                value: JsonValue::Num(String::from_str("1.5")),
            },
        );
        members.push(
            JsonMember {
                key: String::from_str("temperature"),
                value: JsonValue::Num(String::from_str("0.7")),
            },
        );
        members.push(
            JsonMember {
                key: String::from_str("top_k"),
                value: JsonValue::Num(String::from_str("20")),
            },
        );
        members.push(
            JsonMember {
                key: String::from_str("top_p"),
                value: JsonValue::Num(String::from_str("0.8")),
            },
        );
        ShenronConfig {
            model_name: String::from_str("Qwen/Qwen3-0.6B"),
            cuda_version: 126,
            tensor_parallel_size: 1,
            shenron_version: String::from_str("latest"),
            onwards_version: String::from_str("latest"),
            api_key: String::from_str("sk-"),
            vllm_flashinfer_moe_backend: String::from_str("throughput"),
            vllm_port: 8000,
            vllm_host: String::from_str("0.0.0.0"),
            onwards_port: 3000,
            prometheus_port: 9090,
            prometheus_version: String::from_str("v2.51.2"),
            scouter_version: String::from_str("latest"),
            scouter_collector_instance: String::from_str("host.docker.internal"),
            scouter_collector_url: None,
            scouter_reporter_interval: 10,
            scouter_ingest_api_key: String::from_str("api-key"),
            gpu_memory_utilization: String::from_str("0.7"),
            limit_mm_per_prompt_video: 0,
            scheduling_policy: String::from_str("priority"),
            tool_call_parser: String::from_str("hermes"),
            generation_config: String::from_str("auto"),
            override_generation_config: JsonValue::Obj(members),
            trust_remote_code: true,
            async_scheduling: true,
            enable_auto_tool_choice: true,
        }
    }
}

impl ShenronConfig {
    /// Applies the validation predicate, naming the first violated field.
    pub fn validate(&self) -> (r: Result<(), ShenronError>)
        ensures
            r is Ok <==> spec_valid_config(*self),
            !spec_valid_config(*self) ==> (r matches Err(ShenronError::Validation(m)) && m@
                == spec_validation_message(*self)),
    {
        if !trimmed_nonempty(&self.model_name) {
            return Err(ShenronError::Validation(String::from_str("model_name must be set")));
        }
        if !trimmed_nonempty(&self.shenron_version) {
            return Err(
                ShenronError::Validation(String::from_str("shenron_version must be set")),
            );
        }
        if self.tensor_parallel_size == 0 {
            return Err(
                ShenronError::Validation(
                    String::from_str("tensor_parallel_size must be greater than 0"),
                ),
            );
        }
        if !is_unit_interval_decimal(&self.gpu_memory_utilization) {
            return Err(
                ShenronError::Validation(
                    String::from_str("gpu_memory_utilization must be between 0 and 1"),
                ),
            );
        }
        Ok(())
    }

    /// The derived metrics-collector URL.
    pub fn scouter_collector_url(&self) -> (r: String)
        ensures
            r@ == spec_collector_url(*self),
    {
        match &self.scouter_collector_url {
            Some(u) => u.clone(),
            None => {
                let mut out = String::new();
                out.append("http://");
                out.append(self.scouter_collector_instance.as_str());
                out.append(":4321");
                proof {
                    assert(out@ =~= spec_collector_url(*self));
                }
                out
            },
        }
    }
}

/// Law: the all-defaults config passes validation.
pub proof fn lemma_default_config_valid(c: ShenronConfig)
    requires
        spec_is_default_config(c),
    ensures
        spec_valid_config(c),
{
    reveal_strlit("Qwen/Qwen3-0.6B");
    reveal_strlit("latest");
    reveal_strlit("0.7");
    assert(!char_is_whitespace('Q'));
    assert(!char_is_whitespace('l'));
    assert(c.model_name@[0] == 'Q');
    assert(spec_trimmed_nonempty(c.model_name@));
    assert(c.shenron_version@[0] == 'l');
    assert(spec_trimmed_nonempty(c.shenron_version@));
    assert(spec_unit_interval_decimal(c.gpu_memory_utilization@)) by {
        let g = c.gpu_memory_utilization@;
        assert(g.len() == 3 && g[0] == '0' && g[1] == '.' && g[2] == '7');
        assert(g[0] != '-');
        assert(spec_dot_pos(g) == 1) by {
            lemma_dot_pos_at(g, 1);
        }
        let ip = g.take(1);
        let fp = g.skip(2);
        assert(ip.len() == 1 && ip[0] == '0');
        assert(fp.len() == 1 && fp[0] == '7');
        assert(spec_all_digits(ip));
        assert(spec_all_digits(fp));
        assert(ip.drop_last() =~= Seq::<char>::empty());
        assert(spec_digits_value(Seq::<char>::empty()) == 0);
        assert(ip.last() == '0');
        assert(spec_digit_value('0') == 0);
        assert(spec_digits_value(ip) == 0);
    }
}

} // verus!
