//! Service configurations and their defaults.
use vstd::prelude::*;
use vstd::string::StringExecFns;

verus! {

/// Settings every service shares.
#[derive(Debug, Clone)]
pub struct ServiceConfig {
    pub name: String,
    pub log_level: String,
    pub log_file: Option<String>,
}

impl ServiceConfig {
    /// A service named `name`, logging at `info` to standard error.
    pub fn named(name: &str) -> (r: ServiceConfig)
        ensures
            r.name@ == name@,
            r.log_level@ == "info"@,
            r.log_file is None,
    {
        ServiceConfig {
            name: String::from_str(name),
            log_level: String::from_str("info"),
            log_file: None,
        }
    }
}

impl Default for ServiceConfig {
    fn default() -> (r: ServiceConfig)
        ensures
            r.name@ == "ai-distro"@,
            r.log_level@ == "info"@,
            r.log_file is None,
    {
        ServiceConfig::named("ai-distro")
    }
}

/// The core service.
#[derive(Debug, Clone)]
pub struct CoreConfig {
    pub service: ServiceConfig,
    pub state_db_path: String,
    pub ipc_socket: String,
    pub context_dir: String,
}

impl Default for CoreConfig {
    fn default() -> (r: CoreConfig)
        ensures
            r.service.name@ == "ai-distro-core"@,
            r.service.log_level@ == "info"@,
            r.service.log_file is None,
            r.state_db_path@ == "/var/lib/ai-distro-core/state.db"@,
            r.ipc_socket@ == "/run/ai-distro/core.sock"@,
            r.context_dir@ == "/var/lib/ai-distro-core/context"@,
    {
        CoreConfig {
            service: ServiceConfig::named("ai-distro-core"),
            state_db_path: String::from_str("/var/lib/ai-distro-core/state.db"),
            ipc_socket: String::from_str("/run/ai-distro/core.sock"),
            context_dir: String::from_str("/var/lib/ai-distro-core/context"),
        }
    }
}

/// The voice service.
#[derive(Debug, Clone)]
pub struct VoiceConfig {
    pub service: ServiceConfig,
    pub asr_model: String,
    pub tts_model: String,
    pub audio_device: String,
    pub asr_binary: String,
    pub tts_binary: String,
}

impl Default for VoiceConfig {
    fn default() -> (r: VoiceConfig)
        ensures
            r.service.name@ == "ai-distro-voice"@,
            r.service.log_level@ == "info"@,
            r.service.log_file is None,
            r.asr_model@ == "default-asr"@,
            r.tts_model@ == "default-tts"@,
            r.audio_device@ == "default"@,
            r.asr_binary@ == "/usr/bin/vosk-server"@,
            r.tts_binary@ == "/usr/bin/piper"@,
    {
        VoiceConfig {
            service: ServiceConfig::named("ai-distro-voice"),
            asr_model: String::from_str("default-asr"),
            tts_model: String::from_str("default-tts"),
            audio_device: String::from_str("default"),
            asr_binary: String::from_str("/usr/bin/vosk-server"),
            tts_binary: String::from_str("/usr/bin/piper"),
        }
    }
}

/// The agent service.
#[derive(Debug, Clone)]
pub struct AgentConfig {
    pub service: ServiceConfig,
    pub skills_dir: String,
    pub policy_file: String,
    pub memory_dir: String,
}

impl Default for AgentConfig {
    fn default() -> (r: AgentConfig)
        ensures
            r.service.name@ == "ai-distro-agent"@,
            r.service.log_level@ == "info"@,
            r.service.log_file is None,
            r.skills_dir@ == "/var/lib/ai-distro-agent/skills"@,
            r.policy_file@ == "/etc/ai-distro/policy.json"@,
            r.memory_dir@ == "/var/lib/ai-distro-agent/memory"@,
    {
        AgentConfig {
            service: ServiceConfig::named("ai-distro-agent"),
            skills_dir: String::from_str("/var/lib/ai-distro-agent/skills"),
            policy_file: String::from_str("/etc/ai-distro/policy.json"),
            memory_dir: String::from_str("/var/lib/ai-distro-agent/memory"),
        }
    }
}

} // verus!
