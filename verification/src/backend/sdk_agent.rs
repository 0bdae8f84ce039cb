//! Agents that are driven over a protocol: which service each of them talks to.

use vstd::prelude::*;

use crate::{seqs, text};

verus! {

broadcast use crate::seqs::group_views;

/// The service that an agent talks to: the variable that holds the key, where the
/// service is, and the model that is asked.
pub struct Provider {
    pub key_var: &'static str,
    pub base_url: &'static str,
    pub model: &'static str,
}

/// What is known of a [`Provider`].
pub struct ProviderV {
    pub key_var: Seq<char>,
    pub base_url: Seq<char>,
    pub model: Seq<char>,
}

impl View for Provider {
    type V = ProviderV;

    open spec fn view(&self) -> ProviderV {
        ProviderV { key_var: self.key_var@, base_url: self.base_url@, model: self.model@ }
    }
}

/// The service that the agent with a name in lower case talks to.
pub open spec fn provider_named(lowered: Seq<char>) -> Option<ProviderV> {
    if lowered == "minimaxcc"@ || lowered == "minimax"@ {
        Some(
            ProviderV {
                key_var: "MINIMAX_API_KEY"@,
                base_url: "https://api.minimaxi.com/anthropic"@,
                model: "MiniMax-M3-highspeed"@,
            },
        )
    } else if lowered == "glmcc"@ || lowered == "glm"@ {
        Some(
            ProviderV {
                key_var: "GLM_API_KEY"@,
                base_url: "https://open.bigmodel.cn/api/anthropic"@,
                model: "glm-5.1"@,
            },
        )
    } else if lowered == "mimocc"@ || lowered == "mimo"@ {
        Some(
            ProviderV {
                key_var: "MIMO_API_KEY"@,
                base_url: "https://token-plan-cn.xiaomimimo.com/anthropic"@,
                model: "mimo-v2.5-pro"@,
            },
        )
    } else {
        None
    }
}

/// The service that the agent with a name in lower case talks to, or why there is
/// none.
pub fn provider_of_lower(lowered: &str) -> (r: Result<Provider, String>)
    ensures
        match r {
            Ok(p) => provider_named(lowered@) == Some(p@),
            Err(e) => provider_named(lowered@) is None && e@ == "unknown sdk-agent provider: "@
                + lowered@ + " (expected minimaxcc / glmcc / mimocc)"@,
        },
{
    if text::same(lowered, "minimaxcc") || text::same(lowered, "minimax") {
        Ok(
            Provider {
                key_var: "MINIMAX_API_KEY",
                base_url: "https://api.minimaxi.com/anthropic",
                model: "MiniMax-M3-highspeed",
            },
        )
    } else if text::same(lowered, "glmcc") || text::same(lowered, "glm") {
        Ok(
            Provider {
                key_var: "GLM_API_KEY",
                base_url: "https://open.bigmodel.cn/api/anthropic",
                model: "glm-5.1",
            },
        )
    } else if text::same(lowered, "mimocc") || text::same(lowered, "mimo") {
        Ok(
            Provider {
                key_var: "MIMO_API_KEY",
                base_url: "https://token-plan-cn.xiaomimimo.com/anthropic",
                model: "mimo-v2.5-pro",
            },
        )
    } else {
        let mut e = text::concat2("unknown sdk-agent provider: ", lowered);
        e.append(" (expected minimaxcc / glmcc / mimocc)");
        Err(e)
    }
}

/// The name of an agent, in lower case, and the service that it talks to.
pub fn provider_of(name: &str) -> (r: Result<(String, Provider), String>)
    ensures
        match r {
            Ok(p) => p.0@ == text::lower(text::trimmed(name@)) && provider_named(
                text::lower(text::trimmed(name@)),
            ) == Some(p.1@),
            Err(e) => provider_named(text::lower(text::trimmed(name@))) is None && e@
                == "unknown sdk-agent provider: "@ + text::lower(text::trimmed(name@))
                + " (expected minimaxcc / glmcc / mimocc)"@,
        },
{
    let lowered = text::to_lower(text::trim(name).as_str());
    match provider_of_lower(lowered.as_str()) {
        Ok(p) => Ok((lowered, p)),
        Err(e) => Err(e),
    }
}

/// What the variables of an agent say: the key, where the service is, and the model,
/// which is also asked where a small one would do.
pub open spec fn environment(p: ProviderV, token: Seq<char>) -> Seq<(Seq<char>, Seq<char>)> {
    seq![
        ("ANTHROPIC_AUTH_TOKEN"@, token),
        ("ANTHROPIC_BASE_URL"@, p.base_url),
        ("ANTHROPIC_MODEL"@, p.model),
        ("ANTHROPIC_SMALL_FAST_MODEL"@, p.model),
        ("API_TIMEOUT_MS"@, "3000000"@),
        ("CLAUDE_CODE_DISABLE_NONESSENTIAL_TRAFFIC"@, "1"@),
    ]
}

/// An agent and what its variables say.
pub struct SdkAgentBackend {
    pub agent: String,
    pub provider_env: Vec<(String, String)>,
}

/// What the variables of an agent say.
pub open spec fn env_views(s: Seq<(String, String)>) -> Seq<(Seq<char>, Seq<char>)> {
    Seq::new(s.len(), |i: int| (s[i].0@, s[i].1@))
}

/// What the variables of an agent say.
pub fn environment_of(p: &Provider, token: &str) -> (r: Vec<(String, String)>)
    ensures
        env_views(r@) == environment(p@, token@),
{
    let mut env: Vec<(String, String)> = Vec::new();
    env.push(("ANTHROPIC_AUTH_TOKEN".to_owned(), token.to_owned()));
    env.push(("ANTHROPIC_BASE_URL".to_owned(), p.base_url.to_owned()));
    env.push(("ANTHROPIC_MODEL".to_owned(), p.model.to_owned()));
    env.push(("ANTHROPIC_SMALL_FAST_MODEL".to_owned(), p.model.to_owned()));
    env.push(("API_TIMEOUT_MS".to_owned(), "3000000".to_owned()));
    env.push(("CLAUDE_CODE_DISABLE_NONESSENTIAL_TRAFFIC".to_owned(), "1".to_owned()));
    assert(env_views(env@) =~= environment(p@, token@));
    env
}

impl SdkAgentBackend {
    /// The agent with a name. `token` is the key that the variable of its service
    /// holds, where it is set.
    pub fn for_agent(name: &str, token: Option<&str>) -> (r: Result<SdkAgentBackend, String>)
        ensures
            ({
                let lowered = text::lower(text::trimmed(name@));
                match (r, provider_named(lowered), token) {
                    (Err(e), None, _) => e@ == "unknown sdk-agent provider: "@ + lowered
                        + " (expected minimaxcc / glmcc / mimocc)"@,
                    (Err(e), Some(p), None) => e@ == "sdk-agent "@ + lowered
                        + ": environment variable "@ + p.key_var + " is not set"@,
                    (Ok(b), Some(p), Some(t)) => b.agent@ == lowered && env_views(b.provider_env@)
                        == environment(p, t@),
                    _ => false,
                }
            }),
    {
        let (agent, p) = match provider_of(name) {
            Ok(found) => found,
            Err(e) => {
                return Err(e);
            },
        };
        match token {
            Some(t) => Ok(SdkAgentBackend { agent, provider_env: environment_of(&p, t) }),
            None => {
                let mut e = text::concat2("sdk-agent ", agent.as_str());
                e.append(": environment variable ");
                e.append(p.key_var);
                e.append(" is not set");
                Err(e)
            },
        }
    }
}

} // verus!
