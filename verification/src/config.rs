//! The daemon's configuration: the settings themselves and their defaults.
//! Reading and writing the configuration file is the shell's work; merging
//! a loaded configuration with the defaults is verified here.

use vstd::prelude::*;
use vstd::string::*;

verus! {

/// System-level settings.
#[derive(Debug)]
pub struct SystemConfig {
    pub version: String,
    pub data_dir: String,
    pub socket_path: String,
    pub container_id: Option<String>,
}

/// Which model provider to use and how to reach it.
#[derive(Debug)]
pub struct LLMConfig {
    pub default_provider: String,
    pub openai: OpenAIConfig,
}

/// Settings of the remote text-generation service.
#[derive(Debug)]
pub struct OpenAIConfig {
    pub api_key: Option<String>,
    pub base_url: String,
    pub model: String,
}

/// Which agents run.
#[derive(Debug)]
pub struct AgentsConfig {
    pub core_agent: bool,
    pub security_agent: bool,
    pub system_agent: bool,
}

/// Snapshot bookkeeping settings.
#[derive(Debug)]
pub struct RecoveryConfig {
    pub enabled: bool,
    pub snapshot_interval: String,
    pub max_snapshots: usize,
    pub auto_rollback: bool,
}

/// Command-screening settings.
#[derive(Debug)]
pub struct SecurityConfig {
    pub mode: String,
    pub sandbox: bool,
    pub dangerous_patterns: Vec<String>,
    pub require_confirm: Vec<String>,
}

/// The whole configuration.
#[derive(Debug)]
pub struct AIOSConfig {
    pub aios: SystemConfig,
    pub llm: LLMConfig,
    pub agents: AgentsConfig,
    pub recovery: RecoveryConfig,
    pub security: SecurityConfig,
}

pub fn default_version() -> (s: String)
    ensures
        s@ == "0.1.0"@,
{
    String::from_str("0.1.0")
}

pub fn default_socket_path() -> (s: String)
    ensures
        s@ == "/tmp/aios-runtime.sock"@,
{
    String::from_str("/tmp/aios-runtime.sock")
}

pub fn default_provider() -> (s: String)
    ensures
        s@ == "openai"@,
{
    String::from_str("openai")
}

pub fn default_openai_base_url() -> (s: String)
    ensures
        s@ == "https://api.openai.com/v1"@,
{
    String::from_str("https://api.openai.com/v1")
}

pub fn default_openai_model() -> (s: String)
    ensures
        s@ == "gpt-4"@,
{
    String::from_str("gpt-4")
}

pub fn default_true() -> (b: bool)
    ensures
        b == true,
{
    true
}

pub fn default_snapshot_interval() -> (s: String)
    ensures
        s@ == "hourly"@,
{
    String::from_str("hourly")
}

pub fn default_max_snapshots() -> (n: usize)
    ensures
        n == 24,
{
    24
}

pub fn default_security_mode() -> (s: String)
    ensures
        s@ == "normal"@,
{
    String::from_str("normal")
}

/// The data directory under a configuration root; the root itself comes
/// from the environment and falls back to `/etc`.
pub fn default_data_dir_from(config_root: Option<String>) -> (s: String)
    ensures
        s@ == (match config_root {
            Some(root) => root@,
            None => "/etc"@,
        }) + "/aios"@,
{
    let mut s = match config_root {
        Some(root) => root,
        None => String::from_str("/etc"),
    };
    s.append("/aios");
    s
}

impl SystemConfig {
    /// Whether the fields hold their defaults, around the given data
    /// directory.
    pub open spec fn is_default(&self, data_dir: Seq<char>) -> bool {
        &&& self.version@ == "0.1.0"@
        &&& self.data_dir@ == data_dir
        &&& self.socket_path@ == "/tmp/aios-runtime.sock"@
        &&& self.container_id is None
    }

    /// The default system settings, around a data directory that the shell
    /// resolves from the environment.
    pub fn default_with_data_dir(data_dir: String) -> (c: SystemConfig)
        ensures
            c.is_default(data_dir@),
    {
        SystemConfig {
            version: default_version(),
            data_dir,
            socket_path: default_socket_path(),
            container_id: None,
        }
    }
}

impl Default for SystemConfig {
    /// The defaults with the fallback data directory `/etc/aios`.
    fn default() -> (c: SystemConfig)
        ensures
            c.is_default("/etc/aios"@),
    {
        proof {
            reveal_strlit("/etc");
            reveal_strlit("/aios");
            reveal_strlit("/etc/aios");
            assert("/etc"@ + "/aios"@ =~= "/etc/aios"@);
        }
        SystemConfig::default_with_data_dir(default_data_dir_from(None))
    }
}

impl OpenAIConfig {
    pub open spec fn is_default(&self) -> bool {
        &&& self.api_key is None
        &&& self.base_url@ == "https://api.openai.com/v1"@
        &&& self.model@ == "gpt-4"@
    }
}

impl Default for OpenAIConfig {
    fn default() -> (c: OpenAIConfig)
        ensures
            c.is_default(),
    {
        OpenAIConfig {
            api_key: None,
            base_url: default_openai_base_url(),
            model: default_openai_model(),
        }
    }
}

impl LLMConfig {
    pub open spec fn is_default(&self) -> bool {
        &&& self.default_provider@ == "openai"@
        &&& self.openai.is_default()
    }
}

impl Default for LLMConfig {
    fn default() -> (c: LLMConfig)
        ensures
            c.is_default(),
    {
        LLMConfig { default_provider: default_provider(), openai: OpenAIConfig::default() }
    }
}

impl AgentsConfig {
    pub open spec fn is_default(&self) -> bool {
        &&& self.core_agent == true
        &&& self.security_agent == false
        &&& self.system_agent == false
    }
}

impl Default for AgentsConfig {
    fn default() -> (c: AgentsConfig)
        ensures
            c.is_default(),
    {
        AgentsConfig { core_agent: true, security_agent: false, system_agent: false }
    }
}

impl RecoveryConfig {
    pub open spec fn is_default(&self) -> bool {
        &&& self.enabled == true
        &&& self.snapshot_interval@ == "hourly"@
        &&& self.max_snapshots == 24
        &&& self.auto_rollback == false
    }
}

impl Default for RecoveryConfig {
    fn default() -> (c: RecoveryConfig)
        ensures
            c.is_default(),
    {
        RecoveryConfig {
            enabled: default_true(),
            snapshot_interval: default_snapshot_interval(),
            max_snapshots: default_max_snapshots(),
            auto_rollback: false,
        }
    }
}

impl SecurityConfig {
    pub open spec fn is_default(&self) -> bool {
        &&& self.mode@ == "normal"@
        &&& self.sandbox == false
        &&& self.dangerous_patterns@.len() == 2
        &&& self.dangerous_patterns@[0]@ == "rm -rf /"@
        &&& self.dangerous_patterns@[1]@ == "mkfs.*"@
        &&& self.require_confirm@.len() == 2
        &&& self.require_confirm@[0]@ == "sudo.*"@
        &&& self.require_confirm@[1]@ == "systemctl.*"@
    }
}

impl Default for SecurityConfig {
    fn default() -> (c: SecurityConfig)
        ensures
            c.is_default(),
    {
        let mut dangerous_patterns: Vec<String> = Vec::new();
        dangerous_patterns.push(String::from_str("rm -rf /"));
        dangerous_patterns.push(String::from_str("mkfs.*"));
        let mut require_confirm: Vec<String> = Vec::new();
        require_confirm.push(String::from_str("sudo.*"));
        require_confirm.push(String::from_str("systemctl.*"));
        SecurityConfig {
            mode: default_security_mode(),
            sandbox: false,
            dangerous_patterns,
            require_confirm,
        }
    }
}

impl AIOSConfig {
    pub open spec fn is_default(&self) -> bool {
        &&& self.aios.is_default("/etc/aios"@)
        &&& self.llm.is_default()
        &&& self.agents.is_default()
        &&& self.recovery.is_default()
        &&& self.security.is_default()
    }

    /// Falls back to the defaults when nothing could be loaded: the shell
    /// reads and parses the configuration file where it exists, and hands
    /// the outcome here.
    pub fn load_or_default(loaded: Option<AIOSConfig>) -> (c: AIOSConfig)
        ensures
            match loaded {
                Some(l) => c == l,
                None => c.is_default(),
            },
    {
        match loaded {
            Some(l) => l,
            None => AIOSConfig::default(),
        }
    }
}

impl Default for AIOSConfig {
    fn default() -> (c: AIOSConfig)
        ensures
            c.is_default(),
    {
        AIOSConfig {
            aios: SystemConfig::default(),
            llm: LLMConfig::default(),
            agents: AgentsConfig::default(),
            recovery: RecoveryConfig::default(),
            security: SecurityConfig::default(),
        }
    }
}

} // verus!
