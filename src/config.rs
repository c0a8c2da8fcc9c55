//! The benchmark configuration: the options as given, and the validated,
//! immutable configuration a run uses.

use crate::prompt::PromptConfig;
use vstd::prelude::*;

verus! {

/// The wire protocol of the endpoint.
#[derive(Clone, Copy, Debug, PartialEq, Eq, Structural)]
pub enum ApiFlavor {
    Chat,
    Responses,
    AnthropicMessages,
}

/// How the summary is shown at the end of a run.
#[derive(Clone, Copy, Debug, PartialEq, Eq, Structural)]
pub enum OutputFormat {
    Table,
    Json,
    Silent,
}

/// The recognized options, as given.
#[derive(Clone, Debug, PartialEq, Eq)]
pub struct Args {
    pub url: Option<String>,
    pub api_key: Option<String>,
    pub model: Option<String>,
    pub api: ApiFlavor,
    pub mean_input_tokens: u32,
    pub stddev_input_tokens: u32,
    pub mean_output_tokens: Option<u32>,
    pub stddev_output_tokens: u32,
    pub max_num_completed_requests: u32,
    pub num_concurrent_requests: u32,
    /// Whole-second budget for dispatching requests.
    pub timeout: u64,
    /// Defaults to the model.
    pub tokenizer: Option<String>,
    pub use_server_token_count: bool,
    pub output_format: OutputFormat,
    /// Shorthand for the JSON output format.
    pub json: bool,
    /// Shorthand for no output.
    pub quiet: bool,
}

/// Why the options do not make a configuration.
#[derive(Clone, Copy, Debug, PartialEq, Eq, Structural)]
pub enum ConfigError {
    MissingUrl,
    MissingModel,
    NoRequests,
    NoConcurrency,
}

/// The validated configuration of a run.
#[derive(Clone, Debug, PartialEq, Eq)]
pub struct BenchmarkConfig {
    pub url: String,
    pub api_key: Option<String>,
    pub model: String,
    pub api: ApiFlavor,
    pub tokenizer: String,
    pub prompt: PromptConfig,
    /// Requests to dispatch in all (N, at least 1).
    pub total_requests: u32,
    /// Most requests in flight at once (C, from 1 to N).
    pub concurrency: u32,
    pub timeout_secs: u64,
    pub use_server_token_count: bool,
    pub output_format: OutputFormat,
}

impl BenchmarkConfig {
    pub open spec fn wf(&self) -> bool {
        &&& self.total_requests >= 1
        &&& 1 <= self.concurrency <= self.total_requests
        &&& self.url@.len() > 0
        &&& self.model@.len() > 0
    }
}

pub open spec fn present(s: Option<String>) -> bool {
    s matches Some(v) && v@.len() > 0
}

/// The output format the flags collapse to: quiet wins, then JSON.
pub open spec fn format_of(a: Args) -> OutputFormat {
    if a.quiet {
        OutputFormat::Silent
    } else if a.json {
        OutputFormat::Json
    } else {
        a.output_format
    }
}

impl Args {
    /// Validates the options. A concurrency above the request count is
    /// lowered to it; the tokenizer defaults to the model.
    pub fn into_config(self) -> (r: Result<BenchmarkConfig, ConfigError>)
        ensures
            !present(self.url) ==> r == Err::<BenchmarkConfig, ConfigError>(ConfigError::MissingUrl),
            present(self.url) && !present(self.model) ==> r == Err::<BenchmarkConfig, ConfigError>(
                ConfigError::MissingModel,
            ),
            present(self.url) && present(self.model) && self.max_num_completed_requests == 0 ==> r
                == Err::<BenchmarkConfig, ConfigError>(ConfigError::NoRequests),
            present(self.url) && present(self.model) && self.max_num_completed_requests > 0
                && self.num_concurrent_requests == 0 ==> r == Err::<BenchmarkConfig, ConfigError>(
                ConfigError::NoConcurrency,
            ),
            r is Ok <==> present(self.url) && present(self.model) && self.max_num_completed_requests
                > 0 && self.num_concurrent_requests > 0,
            r matches Ok(c) ==> {
                &&& c.wf()
                &&& c.url == self.url->0
                &&& c.model == self.model->0
                &&& c.api_key == self.api_key
                &&& c.api == self.api
                &&& c.tokenizer == if present(self.tokenizer) {
                    self.tokenizer->0
                } else {
                    self.model->0
                }
                &&& c.prompt == PromptConfig {
                    mean_input_tokens: self.mean_input_tokens,
                    stddev_input_tokens: self.stddev_input_tokens,
                    mean_output_tokens: self.mean_output_tokens,
                    stddev_output_tokens: self.stddev_output_tokens,
                }
                &&& c.total_requests == self.max_num_completed_requests
                &&& c.concurrency == if self.num_concurrent_requests
                    <= self.max_num_completed_requests {
                    self.num_concurrent_requests
                } else {
                    self.max_num_completed_requests
                }
                &&& c.timeout_secs == self.timeout
                &&& c.use_server_token_count == self.use_server_token_count
                &&& c.output_format == format_of(self)
            },
    {
        let output_format = if self.quiet {
            OutputFormat::Silent
        } else if self.json {
            OutputFormat::Json
        } else {
            self.output_format
        };
        let url = match self.url {
            Some(u) => {
                if u.as_str().is_empty() {
                    return Err(ConfigError::MissingUrl);
                }
                u
            },
            None => {
                return Err(ConfigError::MissingUrl);
            },
        };
        let model = match self.model {
            Some(m) => {
                if m.as_str().is_empty() {
                    return Err(ConfigError::MissingModel);
                }
                m
            },
            None => {
                return Err(ConfigError::MissingModel);
            },
        };
        if self.max_num_completed_requests == 0 {
            return Err(ConfigError::NoRequests);
        }
        if self.num_concurrent_requests == 0 {
            return Err(ConfigError::NoConcurrency);
        }
        let tokenizer = match self.tokenizer {
            Some(t) => {
                if t.as_str().is_empty() {
                    model.clone()
                } else {
                    t
                }
            },
            None => model.clone(),
        };
        let concurrency = if self.num_concurrent_requests <= self.max_num_completed_requests {
            self.num_concurrent_requests
        } else {
            self.max_num_completed_requests
        };
        Ok(
            BenchmarkConfig {
                url,
                api_key: self.api_key,
                model,
                api: self.api,
                tokenizer,
                prompt: PromptConfig {
                    mean_input_tokens: self.mean_input_tokens,
                    stddev_input_tokens: self.stddev_input_tokens,
                    mean_output_tokens: self.mean_output_tokens,
                    stddev_output_tokens: self.stddev_output_tokens,
                },
                total_requests: self.max_num_completed_requests,
                concurrency,
                timeout_secs: self.timeout,
                use_server_token_count: self.use_server_token_count,
                output_format,
            },
        )
    }
}

} // verus!
