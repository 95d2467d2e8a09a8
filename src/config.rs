//! Project presets and server settings.

use vstd::prelude::*;
use crate::session::SpawnConfig;
use crate::text::{decimal, push_decimal, push_str};

verus! {

/// A named bundle of spawn parameters from a project's configuration.
#[derive(Debug, Clone, PartialEq)]
pub struct AgentPreset {
    pub name: String,
    /// Extra command-line arguments.
    pub args: Vec<String>,
    /// Text written to the agent once it runs.
    pub initial_prompt: Option<String>,
}

/// A project's configuration: its presets and the default one's name.
#[derive(Debug, Clone, PartialEq)]
pub struct ProjectConfig {
    pub presets: Vec<AgentPreset>,
    pub default_preset: Option<String>,
}

impl Default for ProjectConfig {
    /// No presets and no default.
    fn default() -> (r: ProjectConfig)
        ensures
            r.presets@.len() == 0,
            r.default_preset is None,
    {
        ProjectConfig { presets: Vec::new(), default_preset: None }
    }
}

/// The index of the first preset named `name`, if any.
pub open spec fn preset_index(presets: Seq<AgentPreset>, name: Seq<char>) -> Option<int>
    decreases presets.len(),
{
    if presets.len() == 0 {
        None
    } else {
        match preset_index(presets.drop_last(), name) {
            Some(i) => Some(i),
            None => if presets.last().name@ == name {
                Some(presets.len() - 1)
            } else {
                None
            },
        }
    }
}

proof fn lemma_preset_index_range(presets: Seq<AgentPreset>, name: Seq<char>)
    ensures
        preset_index(presets, name) matches Some(i) ==> 0 <= i < presets.len(),
    decreases presets.len(),
{
    if presets.len() > 0 {
        lemma_preset_index_range(presets.drop_last(), name);
    }
}

proof fn lemma_preset_index_prefix(presets: Seq<AgentPreset>, name: Seq<char>, i: int)
    requires
        0 <= i < presets.len(),
        presets[i].name@ == name,
        forall|j: int| 0 <= j < i ==> (#[trigger] presets[j]).name@ != name,
    ensures
        preset_index(presets, name) == Some(i),
    decreases presets.len(),
{
    if i < presets.len() - 1 {
        lemma_preset_index_prefix(presets.drop_last(), name, i);
    } else {
        lemma_preset_index_none(presets.drop_last(), name);
    }
}

proof fn lemma_preset_index_none(presets: Seq<AgentPreset>, name: Seq<char>)
    requires
        forall|j: int| 0 <= j < presets.len() ==> (#[trigger] presets[j]).name@ != name,
    ensures
        preset_index(presets, name) is None,
    decreases presets.len(),
{
    if presets.len() > 0 {
        lemma_preset_index_none(presets.drop_last(), name);
    }
}

impl ProjectConfig {
    /// The first preset with this name.
    pub fn get_preset(&self, name: &str) -> (r: Option<&AgentPreset>)
        ensures
            preset_index(self.presets@, name@) matches Some(i) ==> 0 <= i < self.presets@.len(),
            match preset_index(self.presets@, name@) {
                None => r is None,
                Some(i) => r == Some(&self.presets@[i]),
            },
    {
        proof {
            lemma_preset_index_range(self.presets@, name@);
        }
        let key = name.to_owned();
        let mut i: usize = 0;
        while i < self.presets.len()
            invariant
                i <= self.presets.len(),
                key@ == name@,
                forall|j: int| 0 <= j < i ==> (#[trigger] self.presets@[j]).name@ != name@,
            decreases self.presets.len() - i,
        {
            if self.presets[i].name == key {
                proof {
                    lemma_preset_index_prefix(self.presets@, name@, i as int);
                }
                return Some(&self.presets[i]);
            }
            i += 1;
        }
        proof {
            lemma_preset_index_none(self.presets@, name@);
        }
        None
    }

    /// The preset that the default name designates, if both exist.
    pub fn default_preset(&self) -> (r: Option<&AgentPreset>)
        ensures
            match self.default_preset {
                None => r is None,
                Some(n) => match preset_index(self.presets@, n@) {
                    None => r is None,
                    Some(i) => r == Some(&self.presets@[i]),
                },
            },
    {
        match &self.default_preset {
            Some(n) => self.get_preset(n.as_str()),
            None => None,
        }
    }
}

pub open spec fn opt_str_view(o: Option<&str>) -> Option<Seq<char>> {
    match o {
        Some(t) => Some(t@),
        None => None,
    }
}

/// The requested size, or the default one.
pub open spec fn size_or(o: Option<u16>, d: u16) -> u16 {
    match o {
        Some(c) => c,
        None => d,
    }
}

/// `r` is the spawn configuration for a request: the program that the
/// server runs for agents, the project path, the requested or default
/// size; the named preset, or else the project's default preset,
/// contributing its name, its arguments and its initial prompt.
pub open spec fn plans(
    r: SpawnConfig,
    command: Seq<char>,
    project_path: Seq<char>,
    preset: Option<Seq<char>>,
    cols: Option<u16>,
    rows: Option<u16>,
    project: ProjectConfig,
) -> bool {
    &&& r.project_path@ == project_path
    &&& r.cols == size_or(cols, crate::protocol::DEFAULT_TERMINAL_COLS)
    &&& r.rows == size_or(rows, crate::protocol::DEFAULT_TERMINAL_ROWS)
    &&& r.command@ == command
    &&& match preset {
        Some(n) => {
            &&& r.preset is Some && r.preset.unwrap()@ == n
            &&& match preset_index(project.presets@, n) {
                Some(i) => carries(r, project.presets@[i]),
                None => r.args@.len() == 0 && r.initial_prompt is None,
            }
        },
        None => match project.default_preset {
            Some(d) => match preset_index(project.presets@, d@) {
                Some(i) => r.preset is Some && r.preset.unwrap()@ == project.presets@[i].name@ && carries(
                    r,
                    project.presets@[i],
                ),
                None => r.preset is None && r.args@.len() == 0 && r.initial_prompt is None,
            },
            None => r.preset is None && r.args@.len() == 0 && r.initial_prompt is None,
        },
    }
}

/// `c` has exactly the preset's arguments and initial prompt.
pub open spec fn carries(c: SpawnConfig, p: AgentPreset) -> bool {
    c.args@ == p.args@ && crate::protocol::opt_view(c.initial_prompt) == crate::protocol::opt_view(p.initial_prompt)
}

/// Applies a preset's arguments and initial prompt to a configuration
/// that has none.
fn apply_preset(config: SpawnConfig, p: &AgentPreset) -> (r: SpawnConfig)
    requires
        config.args@.len() == 0,
        config.initial_prompt is None,
    ensures
        carries(r, *p),
        r.project_path == config.project_path,
        r.cols == config.cols,
        r.rows == config.rows,
        r.command == config.command,
        r.preset == config.preset,
{
    let mut c = config;
    if p.args.len() > 0 {
        let args = p.args.clone();
        assert(args@ =~= p.args@);
        c = c.with_args(args);
    } else {
        assert(c.args@ =~= p.args@);
    }
    match &p.initial_prompt {
        Some(t) => c.with_initial_prompt(t.as_str()),
        None => c,
    }
}

/// The spawn configuration for a request, given the program that the
/// server runs for agents and the project's configuration.
pub fn spawn_config_for(
    command: &str,
    project_path: &str,
    preset: Option<&str>,
    cols: Option<u16>,
    rows: Option<u16>,
    project: &ProjectConfig,
) -> (r: SpawnConfig)
    ensures
        plans(r, command@, project_path@, opt_str_view(preset), cols, rows, *project),
{
    let c = match cols {
        Some(c) => c,
        None => crate::protocol::DEFAULT_TERMINAL_COLS,
    };
    let rw = match rows {
        Some(x) => x,
        None => crate::protocol::DEFAULT_TERMINAL_ROWS,
    };
    let base = SpawnConfig::new(project_path).with_size(c, rw).with_command(command);
    match preset {
        Some(n) => {
            let named = base.with_preset(n);
            match project.get_preset(n) {
                Some(p) => apply_preset(named, p),
                None => named,
            }
        },
        None => match project.default_preset() {
            Some(p) => apply_preset(base.with_preset(p.name.as_str()), p),
            None => base,
        },
    }
}

/// A worktree of a git repository, as the hosting application lists them.
#[derive(Debug, Clone, PartialEq)]
pub struct WorktreeInfo {
    pub path: String,
    pub branch: Option<String>,
    pub is_main: bool,
}

/// Where the server listens, and the token that clients must present.
#[derive(Debug, Clone, PartialEq)]
pub struct ServerConfig {
    pub bind: String,
    pub port: u16,
    pub token: Option<String>,
}

impl ServerConfig {
    /// Settings without a token.
    pub fn new(bind: String, port: u16) -> (r: ServerConfig)
        ensures
            r.bind == bind,
            r.port == port,
            r.token is None,
    {
        ServerConfig { bind, port, token: None }
    }

    /// The same settings with this token, or none.
    pub fn with_token(self, token: Option<String>) -> (r: ServerConfig)
        ensures
            r == (ServerConfig { token, ..self }),
    {
        ServerConfig { token, ..self }
    }

    /// `host:port`, as the listener is bound to.
    pub fn socket_addr(&self) -> (r: String)
        ensures
            r@ == self.bind@ + seq![':'] + decimal(self.port as nat),
    {
        let mut out = String::new();
        push_str(&mut out, self.bind.as_str());
        push_str(&mut out, ":");
        push_decimal(&mut out, self.port as u128);
        proof {
            reveal_strlit(":");
        }
        out
    }
}

} // verus!
