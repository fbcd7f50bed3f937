use vstd::prelude::*;
use crate::file_discovery::opt_view;
use crate::strutil::strings_view;
use crate::patterns::push_pat;

verus! {

// The run configuration: what to scan, what to skip, and the settings of
// the insight-service collaborator.  Reading and writing the configuration
// file is the caller's business; the defaults and their shape live here.

#[derive(Debug, Clone, Copy, PartialEq, Eq, Structural)]
pub enum LLMProvider {
    OpenAI,
    Ollama,
    Anthropic,
}

#[derive(Debug, Clone, Copy, PartialEq, Eq, Structural)]
pub struct AnalysisConfig {
    pub include_dependencies: bool,
    pub include_function_calls: bool,
    pub include_architecture_patterns: bool,
    pub include_security_analysis: bool,
    pub max_depth: usize,
}

#[derive(Debug)]
pub struct LLMConfig {
    pub provider: LLMProvider,
    pub api_key: Option<String>,
    pub base_url: Option<String>,
    pub model: String,
    pub max_tokens: usize,
    pub timeout_seconds: u64,
}

#[derive(Debug)]
pub struct Config {
    pub target_directory: String,
    pub ignore_patterns: Vec<String>,
    pub file_extensions: Vec<String>,
    pub max_file_size: usize,
    pub llm: LLMConfig,
    pub analysis: AnalysisConfig,
}

#[verifier::ext_equal]
pub struct LLMConfigV {
    pub provider: LLMProvider,
    pub api_key: Option<Seq<char>>,
    pub base_url: Option<Seq<char>>,
    pub model: Seq<char>,
    pub max_tokens: int,
    pub timeout_seconds: u64,
}

#[verifier::ext_equal]
pub struct ConfigV {
    pub target_directory: Seq<char>,
    pub ignore_patterns: Seq<Seq<char>>,
    pub file_extensions: Seq<Seq<char>>,
    pub max_file_size: usize,
    pub llm: LLMConfigV,
    pub analysis: AnalysisConfig,
}

impl View for LLMConfig {
    type V = LLMConfigV;

    open spec fn view(&self) -> LLMConfigV {
        LLMConfigV {
            provider: self.provider,
            api_key: opt_view(self.api_key),
            base_url: opt_view(self.base_url),
            model: self.model@,
            max_tokens: self.max_tokens as int,
            timeout_seconds: self.timeout_seconds,
        }
    }
}

impl View for Config {
    type V = ConfigV;

    open spec fn view(&self) -> ConfigV {
        ConfigV {
            target_directory: self.target_directory@,
            ignore_patterns: strings_view(self.ignore_patterns@),
            file_extensions: strings_view(self.file_extensions@),
            max_file_size: self.max_file_size,
            llm: self.llm@,
            analysis: self.analysis,
        }
    }
}

pub open spec fn default_ignore_patterns() -> Seq<Seq<char>> {
    seq![
        "node_modules"@,
        ".git"@,
        "target"@,
        "build"@,
        "dist"@,
        "*.log"@,
        ".env"@,
        ".env.*"@,
        "*.min.js"@,
        "*.map"@,
        "test-*"@,
        "test_*"@,
    ]
}

pub open spec fn default_file_extensions() -> Seq<Seq<char>> {
    seq![
        "rs"@, "js"@, "ts"@, "tsx"@, "jsx"@, "py"@, "java"@, "go"@, "cpp"@, "c"@, "h"@, "md"@,
        "txt"@, "toml"@, "yaml"@, "yml"@, "json"@, "html"@, "css"@,
    ]
}

/// The default configuration value.
pub open spec fn spec_default_config() -> ConfigV {
    ConfigV {
        target_directory: "."@,
        ignore_patterns: default_ignore_patterns(),
        file_extensions: default_file_extensions(),
        max_file_size: 1048576,
        llm: LLMConfigV {
            provider: LLMProvider::OpenAI,
            api_key: Option::None,
            base_url: Option::None,
            model: "gpt-4"@,
            max_tokens: 4000,
            timeout_seconds: 300,
        },
        analysis: AnalysisConfig {
            include_dependencies: true,
            include_function_calls: true,
            include_architecture_patterns: true,
            include_security_analysis: false,
            max_depth: 10,
        },
    }
}

impl Default for Config {
    /// The built-in defaults: current directory, the standard ignore
    /// patterns and source extensions, a one-megabyte size cap.
    fn default() -> (r: Self)
        ensures
            r@ == spec_default_config(),
    {
        let mut ignore_patterns: Vec<String> = Vec::new();
        push_pat(&mut ignore_patterns, "node_modules");
        push_pat(&mut ignore_patterns, ".git");
        push_pat(&mut ignore_patterns, "target");
        push_pat(&mut ignore_patterns, "build");
        push_pat(&mut ignore_patterns, "dist");
        push_pat(&mut ignore_patterns, "*.log");
        push_pat(&mut ignore_patterns, ".env");
        push_pat(&mut ignore_patterns, ".env.*");
        push_pat(&mut ignore_patterns, "*.min.js");
        push_pat(&mut ignore_patterns, "*.map");
        push_pat(&mut ignore_patterns, "test-*");
        push_pat(&mut ignore_patterns, "test_*");
        let mut file_extensions: Vec<String> = Vec::new();
        push_pat(&mut file_extensions, "rs");
        push_pat(&mut file_extensions, "js");
        push_pat(&mut file_extensions, "ts");
        push_pat(&mut file_extensions, "tsx");
        push_pat(&mut file_extensions, "jsx");
        push_pat(&mut file_extensions, "py");
        push_pat(&mut file_extensions, "java");
        push_pat(&mut file_extensions, "go");
        push_pat(&mut file_extensions, "cpp");
        push_pat(&mut file_extensions, "c");
        push_pat(&mut file_extensions, "h");
        push_pat(&mut file_extensions, "md");
        push_pat(&mut file_extensions, "txt");
        push_pat(&mut file_extensions, "toml");
        push_pat(&mut file_extensions, "yaml");
        push_pat(&mut file_extensions, "yml");
        push_pat(&mut file_extensions, "json");
        push_pat(&mut file_extensions, "html");
        push_pat(&mut file_extensions, "css");
        let r = Config {
            target_directory: String::from_str("."),
            ignore_patterns,
            file_extensions,
            max_file_size: 1048576,
            llm: LLMConfig {
                provider: LLMProvider::OpenAI,
                api_key: Option::None,
                base_url: Option::None,
                model: String::from_str("gpt-4"),
                max_tokens: 4000,
                timeout_seconds: 300,
            },
            analysis: AnalysisConfig {
                include_dependencies: true,
                include_function_calls: true,
                include_architecture_patterns: true,
                include_security_analysis: false,
                max_depth: 10,
            },
        };
        proof {
            assert(r@.ignore_patterns =~= default_ignore_patterns());
            assert(r@.file_extensions =~= default_file_extensions());
            assert(r@ =~= spec_default_config());
        }
        r
    }
}

} // verus!
