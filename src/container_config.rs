use vstd::prelude::*;
use std::collections::HashMap;
use crate::execution::{decimal, u64_text};

verus! {

/// A host port published to a container port.
#[derive(Debug, Clone)]
pub struct PortMapping {
    pub host_port: u16,
    pub container_port: u16,
    /// "tcp" or "udp".
    pub protocol: String,
}

/// The language model service the container talks to.
#[derive(Debug, Clone)]
pub enum LlmProviderType {
    Ollama { endpoint: String, model: String },
    OpenAI { api_key: String, model: String, base_url: Option<String> },
    Anthropic { api_key: String, model: String },
}

#[derive(Debug, Clone)]
pub struct LlmProviderConfig {
    pub provider_type: LlmProviderType,
    pub timeout_seconds: u64,
    pub max_retries: u32,
}

/// Credentials of a tool service.
#[derive(Debug, Clone)]
pub struct AuthConfig {
    /// "bearer", "api_key", "basic" and the like.
    pub auth_type: String,
    pub credentials: String,
}

/// A tool service reachable from the container.
#[derive(Debug, Clone)]
pub struct McpServiceConfig {
    pub name: String,
    pub endpoint: String,
    pub auth: Option<AuthConfig>,
    pub enabled: bool,
    pub timeout_seconds: u64,
}

#[derive(Debug, Clone, Copy, PartialEq, Eq, Structural)]
pub struct ResourceLimits {
    pub memory_mb: u32,
    pub cpu_shares: u32,
    pub max_open_files: u32,
}

#[derive(Debug, Clone)]
pub struct NetworkConfig {
    /// "bridge", "host", "container" and the like.
    pub network_mode: String,
    pub dns_servers: Vec<String>,
    pub extra_hosts: Vec<String>,
}

/// How the agent's container is built and run.
#[derive(Debug, Clone)]
pub struct ContainerConfig {
    pub image: String,
    pub tag: String,
    pub container_name: String,
    pub ports: Vec<PortMapping>,
    pub environment: HashMap<String, String>,
    pub llm_provider: LlmProviderConfig,
    pub mcp_services: Vec<McpServiceConfig>,
    pub resource_limits: ResourceLimits,
    pub network: NetworkConfig,
}

/// The smallest memory limit a container may have, in MB.
pub const MIN_MEMORY_MB: u32 = 256;

/// The first problem of a configuration, if any, in the order they are checked.
pub open spec fn config_problem(c: ContainerConfig) -> Option<Seq<char>> {
    if c.image@.len() == 0 {
        Some("Image name cannot be empty"@)
    } else if c.tag@.len() == 0 {
        Some("Image tag cannot be empty"@)
    } else if c.container_name@.len() == 0 {
        Some("Container name cannot be empty"@)
    } else if c.ports@.len() == 0 {
        Some("At least one port mapping is required"@)
    } else if c.resource_limits.memory_mb < MIN_MEMORY_MB {
        Some("Memory limit must be at least 256 MB"@)
    } else {
        None
    }
}

impl ContainerConfig {
    /// Checks the configuration; the error names the first problem found.
    pub fn validate(&self) -> (r: Result<(), String>)
        ensures
            match config_problem(*self) {
                Some(m) => r matches Err(e) && e@ == m,
                None => r is Ok,
            },
    {
        if self.image.as_str().unicode_len() == 0 {
            return Err("Image name cannot be empty".to_owned());
        }
        if self.tag.as_str().unicode_len() == 0 {
            return Err("Image tag cannot be empty".to_owned());
        }
        if self.container_name.as_str().unicode_len() == 0 {
            return Err("Container name cannot be empty".to_owned());
        }
        if self.ports.len() == 0 {
            return Err("At least one port mapping is required".to_owned());
        }
        if self.resource_limits.memory_mb < MIN_MEMORY_MB {
            return Err("Memory limit must be at least 256 MB".to_owned());
        }
        Ok(())
    }

    /// The image name with its tag, as `image:tag`.
    pub fn full_image_name(&self) -> (r: String)
        ensures
            r@ == self.image@ + ":"@ + self.tag@,
    {
        let mut r = self.image.clone();
        r.append(":");
        r.append(self.tag.as_str());
        r
    }

    /// The address of the gRPC service: the host port of the first mapping on localhost,
    /// or the standard port 50051 when there is no mapping.
    pub fn grpc_endpoint(&self) -> (r: String)
        ensures
            r@ == "http://localhost:"@ + decimal(
                if self.ports@.len() > 0 {
                    self.ports@[0].host_port as nat
                } else {
                    50051nat
                },
            ),
    {
        let port: u64 = if self.ports.len() > 0 {
            self.ports[0].host_port as u64
        } else {
            50051
        };
        let mut r = "http://localhost:".to_owned();
        let digits = u64_text(port);
        r.append(digits.as_str());
        r
    }
}

impl Default for ContainerConfig {
    /// The image `nvim-spec-agent:latest` with port 50051 published over tcp, a local
    /// Ollama provider, 2048 MB of memory and the bridge network.
    fn default() -> (r: ContainerConfig)
        ensures
            r.image@ == "nvim-spec-agent"@,
            r.tag@ == "latest"@,
            r.container_name@ == "nvim-spec-agent-container"@,
            r.ports@.len() == 1,
            r.ports@[0].host_port == 50051,
            r.ports@[0].container_port == 50051,
            r.ports@[0].protocol@ == "tcp"@,
            r.environment@ == Map::<String, String>::empty(),
            r.llm_provider.timeout_seconds == 300,
            r.llm_provider.max_retries == 3,
            r.mcp_services@.len() == 0,
            r.resource_limits == (ResourceLimits {
                memory_mb: 2048,
                cpu_shares: 1024,
                max_open_files: 1024,
            }),
            r.network.network_mode@ == "bridge"@,
            r.network.dns_servers@.len() == 0,
            r.network.extra_hosts@.len() == 0,
    {
        let mut ports: Vec<PortMapping> = Vec::new();
        ports.push(
            PortMapping { host_port: 50051, container_port: 50051, protocol: "tcp".to_owned() },
        );
        ContainerConfig {
            image: "nvim-spec-agent".to_owned(),
            tag: "latest".to_owned(),
            container_name: "nvim-spec-agent-container".to_owned(),
            ports,
            environment: HashMap::new(),
            llm_provider: LlmProviderConfig {
                provider_type: LlmProviderType::Ollama {
                    endpoint: "http://localhost:11434".to_owned(),
                    model: "llama2".to_owned(),
                },
                timeout_seconds: 300,
                max_retries: 3,
            },
            mcp_services: Vec::new(),
            resource_limits: ResourceLimits { memory_mb: 2048, cpu_shares: 1024, max_open_files: 1024 },
            network: NetworkConfig {
                network_mode: "bridge".to_owned(),
                dns_servers: Vec::new(),
                extra_hosts: Vec::new(),
            },
        }
    }
}

} // verus!
