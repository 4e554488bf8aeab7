//! Command-line options of the agent program, and the small input rules of
//! its interactive session.

use vstd::prelude::*;

use crate::policy::context::PromptContext;
use crate::policy::tool_profile::{
    allowlist_for, profile_for_key, profile_key, strings_view, ToolProfile,
};
use crate::text::{chars_eq_str, chars_of, join_seqs, join_strings, opt_str_view, string_of, trim, trim_str};

verus! {

/// The usage text that `-h` / `--help` answers with.
pub const CLI_USAGE: &'static str = "用法: hippocampus [选项] [TASK...]\n\n无 TASK 时进入交互模式：输入任务目标后回车执行，空行退出。\n有 TASK 时单轮执行后退出。\n\n选项:\n--print-system-prompt\n--workspace DIR\n--run-id ID\n--profile PROFILE\n\n环境变量:\nCODEX_BASE_URL / CODEX_API_KEY / CODEX_MODEL\nHIPPOCAMPUS_WORKSPACE_ROOT / HIPPOCAMPUS_RUN_ID /\nHIPPOCAMPUS_TOOL_PROFILE / HIPPOCAMPUS_TOOL_ALLOWLIST /\nHIPPOCAMPUS_CAPABILITY_* / HIPPOCAMPUS_LSP_COMMAND\n\n说明: 思考过程（Thought/Action/Observation）打印到 stderr；最终答案打印到 stdout。";

/// The task shown by `--print-system-prompt` when none is given.
pub const PREVIEW_PLACEHOLDER: &'static str = "（在此输入你的任务；CLI 预览占位）";

/// The parsed command line.
pub struct Cli {
    pub print_system_prompt: bool,
    pub workspace: Option<String>,
    pub run_id: Option<String>,
    pub profile: Option<ToolProfile>,
    /// The positional words joined by spaces; empty means an interactive
    /// session.
    pub task: String,
}

/// The parsed command line as plain values.
pub struct CliModel {
    pub print_system_prompt: bool,
    pub workspace: Option<Seq<char>>,
    pub run_id: Option<Seq<char>>,
    pub profile: Option<ToolProfile>,
    pub task: Seq<char>,
}

pub open spec fn opt_view(o: Option<String>) -> Option<Seq<char>> {
    match o {
        Some(s) => Some(s@),
        None => None,
    }
}

impl Cli {
    pub open spec fn model(&self) -> CliModel {
        CliModel {
            print_system_prompt: self.print_system_prompt,
            workspace: opt_view(self.workspace),
            run_id: opt_view(self.run_id),
            profile: self.profile,
            task: self.task@,
        }
    }
}

/// No option given and no task.
pub open spec fn empty_cli() -> CliModel {
    CliModel {
        print_system_prompt: false,
        workspace: None,
        run_id: None,
        profile: None,
        task: Seq::empty(),
    }
}

/// Reads the options from the front of `args` into `acc`: options come
/// first, the first word that is not an option starts the task, which is
/// all remaining words joined by spaces.
pub open spec fn scan_cli(args: Seq<Seq<char>>, acc: CliModel) -> Result<CliModel, Seq<char>>
    decreases args.len(),
{
    if args.len() == 0 {
        Ok(acc)
    } else {
        let a = args[0];
        if a == "--print-system-prompt"@ {
            scan_cli(
                args.drop_first(),
                CliModel {
                    print_system_prompt: true,
                    workspace: acc.workspace,
                    run_id: acc.run_id,
                    profile: acc.profile,
                    task: acc.task,
                },
            )
        } else if a == "--workspace"@ {
            if args.len() < 2 {
                Err("--workspace requires a path"@)
            } else if trim(args[1]).len() == 0 {
                Err("--workspace path cannot be empty"@)
            } else {
                scan_cli(
                    args.skip(2),
                    CliModel {
                        print_system_prompt: acc.print_system_prompt,
                        workspace: Some(args[1]),
                        run_id: acc.run_id,
                        profile: acc.profile,
                        task: acc.task,
                    },
                )
            }
        } else if a == "--run-id"@ {
            if args.len() < 2 {
                Err("--run-id requires a value"@)
            } else if trim(args[1]).len() == 0 {
                Err("--run-id cannot be empty"@)
            } else {
                scan_cli(
                    args.skip(2),
                    CliModel {
                        print_system_prompt: acc.print_system_prompt,
                        workspace: acc.workspace,
                        run_id: Some(args[1]),
                        profile: acc.profile,
                        task: acc.task,
                    },
                )
            }
        } else if a == "--profile"@ {
            if args.len() < 2 {
                Err("--profile requires a value (coding|office|full|minimal|custom)"@)
            } else {
                match profile_for_key(profile_key(args[1])) {
                    Some(p) => scan_cli(
                        args.skip(2),
                        CliModel {
                            print_system_prompt: acc.print_system_prompt,
                            workspace: acc.workspace,
                            run_id: acc.run_id,
                            profile: Some(p),
                            task: acc.task,
                        },
                    ),
                    None => Err("--profile: unknown tool profile: "@ + profile_key(args[1])),
                }
            }
        } else if a == "-h"@ || a == "--help"@ {
            Err(CLI_USAGE@)
        } else {
            Ok(
                CliModel {
                    print_system_prompt: acc.print_system_prompt,
                    workspace: acc.workspace,
                    run_id: acc.run_id,
                    profile: acc.profile,
                    task: join_seqs(args, " "@),
                },
            )
        }
    }
}

/// What the command line (without the program name) parses to.
pub open spec fn cli_of(args: Seq<Seq<char>>) -> Result<CliModel, Seq<char>> {
    scan_cli(args, empty_cli())
}

fn error_text(s: &str) -> (r: Result<Cli, String>)
    ensures
        r matches Err(e) && e@ == s@,
{
    Err(string_of(chars_of(s).as_slice()))
}

/// Parses the command line (without the program name).  Errors carry the
/// message to print; `-h` / `--help` answers with the usage text.
pub fn parse_cli(args: &[String]) -> (r: Result<Cli, String>)
    ensures
        match r {
            Ok(c) => cli_of(strings_view(args@)) == Ok::<CliModel, Seq<char>>(c.model()),
            Err(e) => cli_of(strings_view(args@)) == Err::<CliModel, Seq<char>>(e@),
        },
{
    let ghost v = strings_view(args@);
    let mut print_system_prompt = false;
    let mut workspace: Option<String> = None;
    let mut run_id: Option<String> = None;
    let mut profile: Option<ToolProfile> = None;
    let mut i: usize = 0;
    assert(v.skip(0) == v);
    while i < args.len()
        invariant
            0 <= i <= args@.len(),
            v == strings_view(args@),
            cli_of(v) == scan_cli(
                v.skip(i as int),
                CliModel {
                    print_system_prompt,
                    workspace: opt_view(workspace),
                    run_id: opt_view(run_id),
                    profile,
                    task: Seq::empty(),
                },
            ),
        decreases args@.len() - i,
    {
        let ghost rest = v.skip(i as int);
        assert(rest[0] == args@[i as int]@);
        assert(rest.drop_first() == v.skip(i + 1));
        let a = args[i].as_str();
        let ac = chars_of(a);
        if chars_eq_str(ac.as_slice(), "--print-system-prompt") {
            print_system_prompt = true;
            i = i + 1;
        } else if chars_eq_str(ac.as_slice(), "--workspace") {
            if i + 1 >= args.len() {
                return error_text("--workspace requires a path");
            }
            assert(rest[1] == args@[i + 1]@);
            assert(rest.skip(2) == v.skip(i + 2));
            if trim_str(args[i + 1].as_str()).len() == 0 {
                return error_text("--workspace path cannot be empty");
            }
            workspace = Some(args[i + 1].clone());
            i = i + 2;
        } else if chars_eq_str(ac.as_slice(), "--run-id") {
            if i + 1 >= args.len() {
                return error_text("--run-id requires a value");
            }
            assert(rest[1] == args@[i + 1]@);
            assert(rest.skip(2) == v.skip(i + 2));
            if trim_str(args[i + 1].as_str()).len() == 0 {
                return error_text("--run-id cannot be empty");
            }
            run_id = Some(args[i + 1].clone());
            i = i + 2;
        } else if chars_eq_str(ac.as_slice(), "--profile") {
            if i + 1 >= args.len() {
                return error_text("--profile requires a value (coding|office|full|minimal|custom)");
            }
            assert(rest[1] == args@[i + 1]@);
            assert(rest.skip(2) == v.skip(i + 2));
            match ToolProfile::parse(args[i + 1].as_str()) {
                Ok(p) => {
                    profile = Some(p);
                },
                Err(e) => {
                    let mut m = chars_of("--profile: ");
                    crate::text::append_str(&mut m, e.as_str());
                    proof {
                        reveal_strlit("--profile: ");
                        reveal_strlit("unknown tool profile: ");
                        reveal_strlit("--profile: unknown tool profile: ");
                        assert("--profile: "@ + ("unknown tool profile: "@ + profile_key(rest[1]))
                            =~= "--profile: unknown tool profile: "@ + profile_key(rest[1]));
                    }
                    return Err(string_of(m.as_slice()));
                },
            }
            i = i + 2;
        } else if chars_eq_str(ac.as_slice(), "-h") || chars_eq_str(ac.as_slice(), "--help") {
            return error_text(CLI_USAGE);
        } else {
            let mut tail: Vec<String> = Vec::new();
            let mut k: usize = i;
            while k < args.len()
                invariant
                    i <= k <= args@.len(),
                    v == strings_view(args@),
                    strings_view(tail@) == v.subrange(i as int, k as int),
                decreases args@.len() - k,
            {
                let ghost before = tail@;
                let c = args[k].clone();
                assert(c@ == v[k as int]);
                tail.push(c);
                assert(tail@ == before.push(c));
                assert(strings_view(tail@) =~= strings_view(before).push(c@));
                assert(strings_view(tail@) =~= v.subrange(i as int, k + 1));
                k = k + 1;
            }
            assert(v.subrange(i as int, args@.len() as int) == rest);
            let task = join_strings(tail.as_slice(), " ");
            return Ok(
                Cli {
                    print_system_prompt,
                    workspace,
                    run_id,
                    profile,
                    task: string_of(task.as_slice()),
                },
            );
        }
    }
    assert(v.skip(i as int) =~= Seq::<Seq<char>>::empty());
    Ok(Cli { print_system_prompt, workspace, run_id, profile, task: String::new() })
}

/// The task of one line of the interactive session: the trimmed line, or
/// none for a blank line (which ends the session).
pub fn task_from_line(line: &str) -> (r: Option<String>)
    ensures
        match r {
            Some(t) => trim(line@).len() > 0 && t@ == trim(line@),
            None => trim(line@).len() == 0,
        },
{
    let t = trim_str(line);
    if t.len() == 0 {
        None
    } else {
        Some(string_of(t.as_slice()))
    }
}

/// The task `--print-system-prompt` renders: the trimmed task, or a
/// placeholder when there is none.
pub fn preview_task(task: &str) -> (r: String)
    ensures
        r@ == (if trim(task@).len() == 0 {
            PREVIEW_PLACEHOLDER@
        } else {
            trim(task@)
        }),
{
    let t = trim_str(task);
    if t.len() == 0 {
        string_of(chars_of(PREVIEW_PLACEHOLDER).as_slice())
    } else {
        string_of(t.as_slice())
    }
}

impl Cli {
    /// Applies the overrides to a context: the workspace root and run id
    /// when given, then the profile, whose allowlist is resolved from
    /// `custom_allowlist`.
    pub fn apply_to(&self, ctx: &mut PromptContext, custom_allowlist: Option<&str>) -> (r: Result<
        (),
        String,
    >)
        ensures
            final(ctx).workspace_root@ == (match self.workspace {
                Some(w) => w@,
                None => old(ctx).workspace_root@,
            }),
            opt_view(final(ctx).run_id) == (match self.run_id {
                Some(id) => Some(id@),
                None => opt_view(old(ctx).run_id),
            }),
            final(ctx).capability_network == old(ctx).capability_network,
            final(ctx).capability_shell == old(ctx).capability_shell,
            final(ctx).capability_write_file == old(ctx).capability_write_file,
            final(ctx).capability_lsp == old(ctx).capability_lsp,
            final(ctx).max_tool_iterations == old(ctx).max_tool_iterations,
            match self.profile {
                None => r is Ok && final(ctx).tool_profile == old(ctx).tool_profile
                    && final(ctx).allowed_tool_names == old(ctx).allowed_tool_names,
                Some(p) => final(ctx).tool_profile == p && match allowlist_for(
                    p,
                    opt_str_view(custom_allowlist),
                ) {
                    Ok(s) => r is Ok && strings_view(final(ctx).allowed_tool_names@) == s,
                    Err(m) => r matches Err(e) && e@ == m && final(ctx).allowed_tool_names
                        == old(ctx).allowed_tool_names,
                },
            },
    {
        match &self.workspace {
            Some(w) => {
                ctx.workspace_root = w.clone();
            },
            None => {},
        }
        match &self.run_id {
            Some(id) => {
                ctx.run_id = Some(id.clone());
            },
            None => {},
        }
        match self.profile {
            Some(p) => ctx.set_tool_profile(p, custom_allowlist),
            None => Ok(()),
        }
    }
}

} // verus!
