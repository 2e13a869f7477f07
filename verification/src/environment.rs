//! Resolved environment settings: which provider materializes a run, with
//! what image, resources, network policy, lifecycle, labels, volumes and
//! environment variables.

use vstd::prelude::*;
use crate::text::str_eq;

verus! {

/// The runtime provider responsible for materializing an environment.
#[derive(Debug, Clone, Copy, PartialEq, Eq, Structural)]
pub enum EnvironmentProvider {
    Local,
    Docker,
    Daytona,
}

/// A name that is not one of the known ones.
#[derive(Debug, Clone, PartialEq, Eq)]
pub struct ParseNameError {
    pub input: String,
}

impl EnvironmentProvider {
    /// The snake_case name of the provider.
    pub open spec fn name(self) -> Seq<char> {
        match self {
            EnvironmentProvider::Local => "local"@,
            EnvironmentProvider::Docker => "docker"@,
            EnvironmentProvider::Daytona => "daytona"@,
        }
    }

    pub fn as_str(self) -> (s: &'static str)
        ensures
            s@ == self.name(),
    {
        match self {
            EnvironmentProvider::Local => "local",
            EnvironmentProvider::Docker => "docker",
            EnvironmentProvider::Daytona => "daytona",
        }
    }

    pub fn to_string(self) -> (s: String)
        ensures
            s@ == self.name(),
    {
        self.as_str().to_string()
    }

    /// The provider named exactly `s`.
    pub open spec fn parse_spec(s: Seq<char>) -> Option<EnvironmentProvider> {
        if s == "local"@ {
            Some(EnvironmentProvider::Local)
        } else if s == "docker"@ {
            Some(EnvironmentProvider::Docker)
        } else if s == "daytona"@ {
            Some(EnvironmentProvider::Daytona)
        } else {
            None
        }
    }

    pub fn parse(s: &str) -> (r: Result<EnvironmentProvider, ParseNameError>)
        ensures
            Self::parse_spec(s@) matches Some(p) ==> r == Ok::<EnvironmentProvider, ParseNameError>(p),
            Self::parse_spec(s@) is None ==> (r matches Err(e) && e.input@ == s@),
    {
        if str_eq(s, "local") {
            Ok(EnvironmentProvider::Local)
        } else if str_eq(s, "docker") {
            Ok(EnvironmentProvider::Docker)
        } else if str_eq(s, "daytona") {
            Ok(EnvironmentProvider::Daytona)
        } else {
            Err(ParseNameError { input: s.to_string() })
        }
    }
}

impl std::str::FromStr for EnvironmentProvider {
    type Err = ParseNameError;

    fn from_str(s: &str) -> (r: Result<EnvironmentProvider, ParseNameError>)
        ensures
            Self::parse_spec(s@) matches Some(p) ==> r == Ok::<EnvironmentProvider, ParseNameError>(p),
            Self::parse_spec(s@) is None ==> (r matches Err(e) && e.input@ == s@),
    {
        EnvironmentProvider::parse(s)
    }
}

/// Provider-native image: a reference (Docker image tag or Daytona snapshot
/// name), or a Dockerfile to build.
#[derive(Debug, Clone, PartialEq, Eq)]
pub struct EnvironmentImageSettings {
    pub image_ref: Option<String>,
    pub dockerfile: Option<String>,
}

impl EnvironmentImageSettings {
    pub open spec fn is_empty_spec(&self) -> bool {
        self.image_ref is None && self.dockerfile is None
    }

    pub fn is_empty(&self) -> (b: bool)
        ensures
            b == self.is_empty_spec(),
    {
        self.image_ref.is_none() && self.dockerfile.is_none()
    }
}

impl Default for EnvironmentImageSettings {
    fn default() -> (s: EnvironmentImageSettings)
        ensures
            s.is_empty_spec(),
    {
        EnvironmentImageSettings { image_ref: None, dockerfile: None }
    }
}

/// CPU count and memory and disk sizes (in bytes), each optional.
#[derive(Debug, Clone, Copy, PartialEq, Eq)]
pub struct EnvironmentResourcesSettings {
    pub cpu: Option<i32>,
    pub memory: Option<u64>,
    pub disk: Option<u64>,
}

impl EnvironmentResourcesSettings {
    pub open spec fn is_empty_spec(&self) -> bool {
        self.cpu is None && self.memory is None && self.disk is None
    }

    pub fn is_empty(&self) -> (b: bool)
        ensures
            b == self.is_empty_spec(),
    {
        self.cpu.is_none() && self.memory.is_none() && self.disk.is_none()
    }
}

impl Default for EnvironmentResourcesSettings {
    fn default() -> (s: EnvironmentResourcesSettings)
        ensures
            s.is_empty_spec(),
    {
        EnvironmentResourcesSettings { cpu: None, memory: None, disk: None }
    }
}

/// The network policy of an environment.
#[derive(Debug, Clone, Copy, PartialEq, Eq, Structural)]
pub enum EnvironmentNetworkMode {
    AllowAll,
    Block,
    CidrAllowList,
}

impl EnvironmentNetworkMode {
    /// The snake_case name of the mode.
    pub open spec fn name(self) -> Seq<char> {
        match self {
            EnvironmentNetworkMode::AllowAll => "allow_all"@,
            EnvironmentNetworkMode::Block => "block"@,
            EnvironmentNetworkMode::CidrAllowList => "cidr_allow_list"@,
        }
    }

    pub fn as_str(self) -> (s: &'static str)
        ensures
            s@ == self.name(),
    {
        match self {
            EnvironmentNetworkMode::AllowAll => "allow_all",
            EnvironmentNetworkMode::Block => "block",
            EnvironmentNetworkMode::CidrAllowList => "cidr_allow_list",
        }
    }

    pub fn to_string(self) -> (s: String)
        ensures
            s@ == self.name(),
    {
        self.as_str().to_string()
    }

    /// The mode named exactly `s`.
    pub open spec fn parse_spec(s: Seq<char>) -> Option<EnvironmentNetworkMode> {
        if s == "allow_all"@ {
            Some(EnvironmentNetworkMode::AllowAll)
        } else if s == "block"@ {
            Some(EnvironmentNetworkMode::Block)
        } else if s == "cidr_allow_list"@ {
            Some(EnvironmentNetworkMode::CidrAllowList)
        } else {
            None
        }
    }

    pub fn parse(s: &str) -> (r: Result<EnvironmentNetworkMode, ParseNameError>)
        ensures
            Self::parse_spec(s@) matches Some(m) ==> r == Ok::<EnvironmentNetworkMode, ParseNameError>(m),
            Self::parse_spec(s@) is None ==> (r matches Err(e) && e.input@ == s@),
    {
        if str_eq(s, "allow_all") {
            Ok(EnvironmentNetworkMode::AllowAll)
        } else if str_eq(s, "block") {
            Ok(EnvironmentNetworkMode::Block)
        } else if str_eq(s, "cidr_allow_list") {
            Ok(EnvironmentNetworkMode::CidrAllowList)
        } else {
            Err(ParseNameError { input: s.to_string() })
        }
    }
}

impl std::str::FromStr for EnvironmentNetworkMode {
    type Err = ParseNameError;

    fn from_str(s: &str) -> (r: Result<EnvironmentNetworkMode, ParseNameError>)
        ensures
            Self::parse_spec(s@) matches Some(x) ==> r == Ok::<EnvironmentNetworkMode, ParseNameError>(x),
            Self::parse_spec(s@) is None ==> (r matches Err(e) && e.input@ == s@),
    {
        EnvironmentNetworkMode::parse(s)
    }
}

/// The network mode and, for an allow list, the CIDR blocks allowed.
#[derive(Debug, Clone, PartialEq, Eq)]
pub struct EnvironmentNetworkSettings {
    pub mode: EnvironmentNetworkMode,
    pub allow: Vec<String>,
}

impl EnvironmentNetworkSettings {
    pub open spec fn is_default_spec(&self) -> bool {
        self.mode == EnvironmentNetworkMode::AllowAll && self.allow@.len() == 0
    }

    pub fn is_default(&self) -> (b: bool)
        ensures
            b == self.is_default_spec(),
    {
        self.mode == EnvironmentNetworkMode::AllowAll && self.allow.len() == 0
    }
}

impl Default for EnvironmentNetworkSettings {
    fn default() -> (s: EnvironmentNetworkSettings)
        ensures
            s.is_default_spec(),
    {
        EnvironmentNetworkSettings { mode: EnvironmentNetworkMode::AllowAll, allow: Vec::new() }
    }
}

/// Whether the sandbox is kept, whether it stops when the run ends, and
/// after how many idle seconds it stops on its own.
#[derive(Debug, Clone, Copy, PartialEq, Eq)]
pub struct EnvironmentLifecycleSettings {
    pub preserve: bool,
    pub stop_on_terminal: bool,
    pub auto_stop: Option<u64>,
}

impl EnvironmentLifecycleSettings {
    pub open spec fn is_default_spec(&self) -> bool {
        !self.preserve && self.stop_on_terminal && self.auto_stop is None
    }

    pub fn is_default(&self) -> (b: bool)
        ensures
            b == self.is_default_spec(),
    {
        !self.preserve && self.stop_on_terminal && self.auto_stop.is_none()
    }
}

impl Default for EnvironmentLifecycleSettings {
    fn default() -> (s: EnvironmentLifecycleSettings)
        ensures
            !s.preserve,
            s.stop_on_terminal,
            s.auto_stop is None,
            s.is_default_spec(),
    {
        EnvironmentLifecycleSettings { preserve: false, stop_on_terminal: true, auto_stop: None }
    }
}

/// A volume mounted into the sandbox.
#[derive(Debug, Clone, PartialEq, Eq)]
pub struct EnvironmentVolumeSettings {
    pub id: String,
    pub mount_path: String,
    pub subpath: Option<String>,
}

/// A resolved, named environment.
#[derive(Debug, Clone, PartialEq, Eq)]
pub struct EnvironmentSettings {
    pub provider: EnvironmentProvider,
    pub image: EnvironmentImageSettings,
    pub resources: EnvironmentResourcesSettings,
    pub network: EnvironmentNetworkSettings,
    pub lifecycle: EnvironmentLifecycleSettings,
    pub labels: Vec<(String, String)>,
    pub volumes: Vec<EnvironmentVolumeSettings>,
    pub env: Vec<(String, String)>,
}

/// Settings that say nothing beyond the defaults: a local provider and
/// every part empty or default.
pub open spec fn environment_is_default(e: EnvironmentSettings) -> bool {
    &&& e.provider == EnvironmentProvider::Local
    &&& e.image.is_empty_spec()
    &&& e.resources.is_empty_spec()
    &&& e.network.is_default_spec()
    &&& e.lifecycle.is_default_spec()
    &&& e.labels@.len() == 0
    &&& e.volumes@.len() == 0
    &&& e.env@.len() == 0
}

impl Default for EnvironmentSettings {
    fn default() -> (s: EnvironmentSettings)
        ensures
            environment_is_default(s),
    {
        EnvironmentSettings {
            provider: EnvironmentProvider::Local,
            image: EnvironmentImageSettings::default(),
            resources: EnvironmentResourcesSettings::default(),
            network: EnvironmentNetworkSettings::default(),
            lifecycle: EnvironmentLifecycleSettings::default(),
            labels: Vec::new(),
            volumes: Vec::new(),
            env: Vec::new(),
        }
    }
}

/// The environment a run selected, by slug, with its resolved settings.
#[derive(Debug, Clone, PartialEq, Eq)]
pub struct RunEnvironmentSettings {
    pub id: String,
    pub environment: EnvironmentSettings,
}

impl Default for RunEnvironmentSettings {
    fn default() -> (s: RunEnvironmentSettings)
        ensures
            s.id@ == "default"@,
            environment_is_default(s.environment),
    {
        RunEnvironmentSettings { id: "default".to_string(), environment: EnvironmentSettings::default() }
    }
}

/// Provider and network-mode names read back as what they name.
pub proof fn law_environment_names_round_trip(p: EnvironmentProvider, m: EnvironmentNetworkMode)
    ensures
        EnvironmentProvider::parse_spec(p.name()) == Some(p),
        EnvironmentNetworkMode::parse_spec(m.name()) == Some(m),
{
    reveal_strlit("local");
    reveal_strlit("docker");
    reveal_strlit("daytona");
    reveal_strlit("allow_all");
    reveal_strlit("block");
    reveal_strlit("cidr_allow_list");
    assert("local"@.len() != "docker"@.len());
    assert("local"@.len() != "daytona"@.len());
    assert("docker"@.len() != "daytona"@.len());
    assert("allow_all"@.len() != "block"@.len());
    assert("allow_all"@.len() != "cidr_allow_list"@.len());
    assert("block"@.len() != "cidr_allow_list"@.len());
}

} // verus!
