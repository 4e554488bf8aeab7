use vstd::prelude::*;

use super::categories::ToolCategory;
use super::tool_profile::{
    allowlist_for, profile_for_key, profile_key, resolve_tool_allowlist, strings_view,
    ToolProfile,
};
use crate::text::{
    ascii_lower_chars, ascii_lower_seq, chars_eq_str, chars_of, opt_str_view, opt_string_view, trim,
    trim_str,
};

verus! {

/// Per-file cap on workspace documents injected into the prompt, in Unicode
/// scalar values.
pub const MAX_WORKSPACE_PROMPT_FILE_CHARS: usize = 20000;

/// The run context rendered into the model prompt (auditable and replayable).
#[derive(Debug, Clone)]
pub struct PromptContext {
    /// Optional id for tracing and replay.
    pub run_id: Option<String>,
    /// Workspace root: where `AGENTS.md` / `TOOLS.md` are read from, and the
    /// path boundary of file tools.
    pub workspace_root: String,
    /// Which tools this run assembles (orthogonal to the capabilities).
    pub tool_profile: ToolProfile,
    /// The tool names the profile resolves to (ordered, deduplicated).
    pub allowed_tool_names: Vec<String>,
    pub capability_network: bool,
    pub capability_shell: bool,
    pub capability_write_file: bool,
    pub capability_lsp: bool,
    pub max_tool_iterations: usize,
}

/// The raw values a context is built from: environment variables (each
/// `None` when unset or not Unicode) and the current directory.
pub struct EnvSnapshot {
    pub run_id: Option<String>,
    pub workspace_root: Option<String>,
    /// The current directory, or the message of the error reading it.
    pub current_dir: Result<String, String>,
    pub tool_profile: Option<String>,
    pub tool_allowlist: Option<String>,
    pub capability_network: Option<String>,
    pub capability_shell: Option<String>,
    pub capability_write_file: Option<String>,
    pub capability_lsp: Option<String>,
}

/// A value that is present and not blank.
pub open spec fn nonblank(v: Option<String>) -> bool {
    v matches Some(s) && trim(s@).len() > 0
}

/// Whether a flag value switches the flag on: `1`, `true`, `yes` or `on`,
/// case-insensitively and ignoring surrounding whitespace.
pub open spec fn flag_on(v: Option<String>) -> bool {
    match v {
        Some(s) => {
            let k = ascii_lower_seq(trim(s@));
            k == "1"@ || k == "true"@ || k == "yes"@ || k == "on"@
        },
        None => false,
    }
}

/// The profile an environment selects, or the key it fails to name.
pub open spec fn env_profile(env: EnvSnapshot) -> Result<ToolProfile, Seq<char>> {
    if nonblank(env.tool_profile) {
        match profile_for_key(profile_key(env.tool_profile->0@)) {
            Some(p) => Ok(p),
            None => Err("unknown tool profile: "@ + profile_key(env.tool_profile->0@)),
        }
    } else {
        Ok(ToolProfile::Coding)
    }
}

/// The error building a context from an environment ends in, if any.
pub open spec fn env_error(env: EnvSnapshot) -> Option<Seq<char>> {
    if !nonblank(env.workspace_root) && env.current_dir is Err {
        Some(env.current_dir->Err_0@)
    } else {
        match env_profile(env) {
            Err(m) => Some(m),
            Ok(p) => match allowlist_for(p, opt_string_view(env.tool_allowlist)) {
                Err(m) => Some(m),
                Ok(_) => None,
            },
        }
    }
}

fn parse_bool_flag(v: &Option<String>) -> (b: bool)
    ensures
        b == flag_on(*v),
{
    match v {
        None => false,
        Some(s) => {
            let t = trim_str(s.as_str());
            let k = ascii_lower_chars(t.as_slice());
            let k = k.as_slice();
            chars_eq_str(k, "1") || chars_eq_str(k, "true") || chars_eq_str(k, "yes")
                || chars_eq_str(k, "on")
        },
    }
}

fn is_nonblank(v: &Option<String>) -> (b: bool)
    ensures
        b == nonblank(*v),
{
    match v {
        None => false,
        Some(s) => trim_str(s.as_str()).len() > 0,
    }
}

impl PromptContext {
    /// The default context for a workspace root: coding profile, every
    /// capability off, no run id.
    pub fn with_workspace_root(workspace_root: String) -> (c: Self)
        ensures
            c.run_id is None,
            c.workspace_root == workspace_root,
            c.tool_profile == ToolProfile::Coding,
            allowlist_for(ToolProfile::Coding, None) == Ok::<Seq<Seq<char>>, Seq<char>>(
                strings_view(c.allowed_tool_names@),
            ),
            !c.capability_network,
            !c.capability_shell,
            !c.capability_write_file,
            !c.capability_lsp,
            c.max_tool_iterations == 0,
    {
        proof {
            super::tool_profile::lemma_coding_allowlist_resolves();
        }
        let allowed = match resolve_tool_allowlist(ToolProfile::Coding, None) {
            Ok(v) => v,
            Err(_) => Vec::new(),
        };
        PromptContext {
            run_id: None,
            workspace_root,
            tool_profile: ToolProfile::Coding,
            allowed_tool_names: allowed,
            capability_network: false,
            capability_shell: false,
            capability_write_file: false,
            capability_lsp: false,
            max_tool_iterations: 0,
        }
    }

    /// Builds a context from environment values: a blank run id or workspace
    /// root counts as unset (the root then falls back to the current
    /// directory), a blank profile means `coding`, and the capability flags
    /// are on only for `1/true/yes/on`.
    pub fn from_env_values(env: EnvSnapshot) -> (r: Result<Self, String>)
        ensures
            match r {
                Err(e) => env_error(env) == Some(e@),
                Ok(c) => {
                    &&& env_error(env) is None
                    &&& c.run_id == (if nonblank(env.run_id) {
                        env.run_id
                    } else {
                        None
                    })
                    &&& c.workspace_root == (if nonblank(env.workspace_root) {
                        env.workspace_root->0
                    } else {
                        env.current_dir->Ok_0
                    })
                    &&& env_profile(env) == Ok::<ToolProfile, Seq<char>>(c.tool_profile)
                    &&& allowlist_for(c.tool_profile, opt_string_view(env.tool_allowlist))
                        == Ok::<Seq<Seq<char>>, Seq<char>>(strings_view(c.allowed_tool_names@))
                    &&& c.capability_network == flag_on(env.capability_network)
                    &&& c.capability_shell == flag_on(env.capability_shell)
                    &&& c.capability_write_file == flag_on(env.capability_write_file)
                    &&& c.capability_lsp == flag_on(env.capability_lsp)
                    &&& c.max_tool_iterations == 0
                },
            },
    {
        let ghost env0 = env;
        let run_id = if is_nonblank(&env.run_id) {
            env.run_id
        } else {
            None
        };
        let workspace_root = if is_nonblank(&env.workspace_root) {
            match env.workspace_root {
                Some(p) => p,
                None => String::new(),
            }
        } else {
            match env.current_dir {
                Ok(d) => d,
                Err(e) => {
                    return Err(e);
                },
            }
        };
        let tool_profile = if is_nonblank(&env.tool_profile) {
            match &env.tool_profile {
                Some(s) => ToolProfile::parse(s.as_str())?,
                None => ToolProfile::Coding,
            }
        } else {
            ToolProfile::Coding
        };
        let allowed_tool_names = match &env.tool_allowlist {
            Some(s) => resolve_tool_allowlist(tool_profile, Some(s.as_str()))?,
            None => resolve_tool_allowlist(tool_profile, None)?,
        };
        let capability_network = parse_bool_flag(&env.capability_network);
        let capability_shell = parse_bool_flag(&env.capability_shell);
        let capability_write_file = parse_bool_flag(&env.capability_write_file);
        let capability_lsp = parse_bool_flag(&env.capability_lsp);
        Ok(PromptContext {
            run_id,
            workspace_root,
            tool_profile,
            allowed_tool_names,
            capability_network,
            capability_shell,
            capability_write_file,
            capability_lsp,
            max_tool_iterations: 0,
        })
    }

    /// Switches the profile (for example on a command-line override) and
    /// re-resolves the allowlist from `custom_allowlist`.  The profile is
    /// switched even when the allowlist fails to resolve; the allowlist then
    /// stays as it was.
    pub fn set_tool_profile(&mut self, profile: ToolProfile, custom_allowlist: Option<&str>) -> (r:
        Result<(), String>)
        ensures
            final(self).tool_profile == profile,
            final(self).run_id == old(self).run_id,
            final(self).workspace_root == old(self).workspace_root,
            final(self).capability_network == old(self).capability_network,
            final(self).capability_shell == old(self).capability_shell,
            final(self).capability_write_file == old(self).capability_write_file,
            final(self).capability_lsp == old(self).capability_lsp,
            final(self).max_tool_iterations == old(self).max_tool_iterations,
            match allowlist_for(profile, opt_str_view(custom_allowlist)) {
                Ok(s) => r is Ok && strings_view(final(self).allowed_tool_names@) == s,
                Err(m) => r matches Err(e) && e@ == m && final(self).allowed_tool_names
                    == old(self).allowed_tool_names,
            },
    {
        self.tool_profile = profile;
        let names = resolve_tool_allowlist(profile, custom_allowlist)?;
        self.allowed_tool_names = names;
        Ok(())
    }

    /// The profile allowlist check; an empty allowlist allows every tool.
    pub fn is_tool_allowed_by_profile(&self, tool_name: &str) -> (b: bool)
        ensures
            b == (self.allowed_tool_names@.len() == 0 || strings_view(
                self.allowed_tool_names@,
            ).contains(tool_name@)),
    {
        if self.allowed_tool_names.len() == 0 {
            return true;
        }
        let n = chars_of(tool_name);
        let ghost v = strings_view(self.allowed_tool_names@);
        let mut i: usize = 0;
        while i < self.allowed_tool_names.len()
            invariant
                0 <= i <= self.allowed_tool_names@.len(),
                n@ == tool_name@,
                v == strings_view(self.allowed_tool_names@),
                forall|k: int| 0 <= k < i ==> v[k] != tool_name@,
            decreases self.allowed_tool_names@.len() - i,
        {
            let a = chars_of(self.allowed_tool_names[i].as_str());
            if crate::text::chars_eq(a.as_slice(), n.as_slice()) {
                assert(v[i as int] == tool_name@);
                return true;
            }
            i = i + 1;
        }
        false
    }

    /// Whether the capability switch of a category is on.
    pub fn allows_category(&self, category: ToolCategory) -> (b: bool)
        ensures
            b == match category {
                ToolCategory::Network => self.capability_network,
                ToolCategory::Shell => self.capability_shell,
                ToolCategory::WriteFile => self.capability_write_file,
                ToolCategory::Lsp => self.capability_lsp,
            },
    {
        match category {
            ToolCategory::Network => self.capability_network,
            ToolCategory::Shell => self.capability_shell,
            ToolCategory::WriteFile => self.capability_write_file,
            ToolCategory::Lsp => self.capability_lsp,
        }
    }
}

} // verus!
