//! The immutable configuration one adapter is built with.

use vstd::prelude::*;

verus! {

/// Which features an analyzer offers.
#[derive(Debug, Clone, Copy, PartialEq, Eq, Structural)]
pub struct ServerCapabilities {
    pub hover: bool,
    pub completion: bool,
    pub definition: bool,
    pub references: bool,
    pub implementation: bool,
    pub formatting: bool,
    pub rename: bool,
    pub diagnostics: bool,
}

impl ServerCapabilities {
    pub open spec fn spec_all_enabled(&self) -> bool {
        self.hover && self.completion && self.definition && self.references && self.implementation
            && self.formatting && self.rename && self.diagnostics
    }
}

impl Default for ServerCapabilities {
    /// Every capability enabled.
    fn default() -> (r: Self)
        ensures
            r.spec_all_enabled(),
    {
        ServerCapabilities {
            hover: true,
            completion: true,
            definition: true,
            references: true,
            implementation: true,
            formatting: true,
            rename: true,
            diagnostics: true,
        }
    }
}

/// The value bound to an environment variable name, latest setting wins.
pub open spec fn spec_env_lookup(env: Seq<(String, String)>, key: Seq<char>) -> Option<Seq<char>>
    decreases env.len(),
{
    if env.len() == 0 {
        None
    } else if env.last().0@ == key {
        Some(env.last().1@)
    } else {
        spec_env_lookup(env.drop_last(), key)
    }
}

/// Two configurations agree in everything the launcher reads.
pub open spec fn spec_config_like(a: ServerConfig, b: ServerConfig) -> bool {
    &&& a.root_path@ == b.root_path@
    &&& a.capabilities == b.capabilities
    &&& match (a.executable_path, b.executable_path) {
        (Some(x), Some(y)) => x@ == y@,
        (None, None) => true,
        _ => false,
    }
    &&& a.additional_args@.len() == b.additional_args@.len()
    &&& forall|j: int|
        0 <= j < a.additional_args@.len() ==> (#[trigger] a.additional_args@[j])@
            == b.additional_args@[j]@
    &&& a.env_vars@.len() == b.env_vars@.len()
    &&& forall|j: int|
        0 <= j < a.env_vars@.len() ==> (#[trigger] a.env_vars@[j]).0@ == b.env_vars@[j].0@
            && a.env_vars@[j].1@ == b.env_vars@[j].1@
}

/// How one analyzer process is launched: its working directory, the
/// executable (a well-known name resolved via the search path when
/// absent), extra arguments and environment overrides.
#[derive(Debug, Clone, PartialEq)]
pub struct ServerConfig {
    pub root_path: String,
    pub capabilities: ServerCapabilities,
    pub executable_path: Option<String>,
    pub additional_args: Vec<String>,
    pub env_vars: Vec<(String, String)>,
}

impl ServerConfig {
    /// A configuration rooted at the given directory, with defaults.
    pub fn new(root_path: &str) -> (r: Result<ServerConfig, String>)
        ensures
            r matches Ok(c) && c.root_path@ == root_path@ && c.capabilities.spec_all_enabled()
                && c.executable_path is None && c.additional_args@.len() == 0
                && c.env_vars@.len() == 0,
    {
        Ok(
            ServerConfig {
                root_path: root_path.to_owned(),
                capabilities: ServerCapabilities::default(),
                executable_path: None,
                additional_args: Vec::new(),
                env_vars: Vec::new(),
            },
        )
    }

    /// Sets the executable to launch.
    pub fn with_executable(self, path: &str) -> (r: ServerConfig)
        ensures
            r.executable_path matches Some(p) && p@ == path@,
            r.root_path == self.root_path,
            r.capabilities == self.capabilities,
            r.additional_args == self.additional_args,
            r.env_vars == self.env_vars,
    {
        ServerConfig { executable_path: Some(path.to_owned()), ..self }
    }

    /// Appends one launch argument.
    pub fn with_arg(self, arg: &str) -> (r: ServerConfig)
        ensures
            r.additional_args@.len() == self.additional_args@.len() + 1,
            r.additional_args@.last()@ == arg@,
            forall|i: int|
                0 <= i < self.additional_args@.len() ==> r.additional_args@[i]
                    == #[trigger] self.additional_args@[i],
            r.root_path == self.root_path,
            r.capabilities == self.capabilities,
            r.executable_path == self.executable_path,
            r.env_vars == self.env_vars,
    {
        let mut c = self;
        c.additional_args.push(arg.to_owned());
        c
    }

    /// Sets one environment variable override.
    pub fn with_env_var(self, key: &str, value: &str) -> (r: ServerConfig)
        ensures
            spec_env_lookup(r.env_vars@, key@) == Some(value@),
            forall|k: Seq<char>|
                k != key@ ==> spec_env_lookup(r.env_vars@, k) == spec_env_lookup(
                    self.env_vars@,
                    k,
                ),
            r.root_path == self.root_path,
            r.capabilities == self.capabilities,
            r.executable_path == self.executable_path,
            r.additional_args == self.additional_args,
    {
        let mut c = self;
        let ghost before = c.env_vars@;
        c.env_vars.push((key.to_owned(), value.to_owned()));
        proof {
            assert(c.env_vars@.drop_last() =~= before);
        }
        c
    }

    /// A copy equal to this configuration in everything the launcher
    /// reads: the same root, executable, arguments and environment.
    pub fn duplicate(&self) -> (r: ServerConfig)
        ensures
            spec_config_like(r, *self),
    {
        let mut args: Vec<String> = Vec::new();
        let mut i: usize = 0;
        while i < self.additional_args.len()
            invariant
                i <= self.additional_args@.len(),
                args@.len() == i,
                forall|j: int|
                    0 <= j < i ==> (#[trigger] args@[j])@ == self.additional_args@[j]@,
            decreases self.additional_args@.len() - i,
        {
            args.push(self.additional_args[i].clone());
            i += 1;
        }
        let mut env: Vec<(String, String)> = Vec::new();
        let mut k: usize = 0;
        while k < self.env_vars.len()
            invariant
                k <= self.env_vars@.len(),
                env@.len() == k,
                forall|j: int|
                    0 <= j < k ==> (#[trigger] env@[j]).0@ == self.env_vars@[j].0@
                        && env@[j].1@ == self.env_vars@[j].1@,
            decreases self.env_vars@.len() - k,
        {
            let pair = (self.env_vars[k].0.clone(), self.env_vars[k].1.clone());
            env.push(pair);
            k += 1;
        }
        let executable: Option<String> = match &self.executable_path {
            Some(e) => Some(e.clone()),
            None => None,
        };
        ServerConfig {
            root_path: self.root_path.clone(),
            capabilities: self.capabilities,
            executable_path: executable,
            additional_args: args,
            env_vars: env,
        }
    }

    /// Replaces the capability set.
    pub fn with_capabilities(self, capabilities: ServerCapabilities) -> (r: ServerConfig)
        ensures
            r.capabilities == capabilities,
            r.root_path == self.root_path,
            r.executable_path == self.executable_path,
            r.additional_args == self.additional_args,
            r.env_vars == self.env_vars,
    {
        ServerConfig { capabilities, ..self }
    }
}

} // verus!
