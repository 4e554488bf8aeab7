//! A model that answers from a fixed script, for running the loop without a
//! real provider.

use vstd::prelude::*;

use crate::text::{chars_of, string_of, truncate_chars, truncated_to};

verus! {

/// The turn a scripted model gives once its script is used up.
pub const SCRIPT_EXHAUSTED_TURN: &'static str = "Thought: no more scripted turns\nFinal Answer: (scripted LLM exhausted)\n";

/// How many characters of each prompt the scripted model echoes.
pub const PROMPT_PREVIEW_CHARS: usize = 320;

/// The first demo turn: list the workspace root.
pub const DEMO_TURN_LIST: &'static str = "Thought: I should list the workspace root to ground my answer in real directory entries.\nAction: list_dir\nAction Input: {\"path\":\".\",\"limit\":32}\n";

/// The second demo turn: finish.
pub const DEMO_TURN_FINISH: &'static str = "Thought: The listing observation is enough for a minimal scripted demo.\nFinal Answer: Scripted path completed: workspace root was listed via list_dir; configure CODEX_* for a real model.\n";

/// Replies in order from a script.
pub struct ScriptedLlm {
    lines: Vec<String>,
    next: usize,
}

/// The reply to turn `i` of a script.
pub open spec fn scripted_reply(script: Seq<Seq<char>>, i: nat) -> Seq<char> {
    if i < script.len() {
        script[i as int]
    } else {
        SCRIPT_EXHAUSTED_TURN@
    }
}

impl ScriptedLlm {
    /// The script.
    pub closed spec fn script(&self) -> Seq<Seq<char>> {
        self.lines@.map_values(|l: String| l@)
    }

    /// The turns served since the last rewind.
    pub closed spec fn served(&self) -> nat {
        self.next as nat
    }

    pub fn new(lines: Vec<String>) -> (r: Self)
        ensures
            r.script() == lines@.map_values(|l: String| l@),
            r.served() == 0,
    {
        ScriptedLlm { lines, next: 0 }
    }

    /// The turns served since the last rewind.
    pub fn turns_served(&self) -> (n: usize)
        ensures
            n == self.served(),
    {
        self.next
    }

    /// The next reply: the script's lines in order, then the exhausted turn.
    pub fn next_turn(&mut self) -> (r: String)
        requires
            old(self).served() < usize::MAX,
        ensures
            r@ == scripted_reply(old(self).script(), old(self).served()),
            final(self).served() == old(self).served() + 1,
            final(self).script() == old(self).script(),
    {
        let i = self.next;
        self.next = i + 1;
        if i < self.lines.len() {
            let l = self.lines[i].clone();
            l
        } else {
            string_of(chars_of(SCRIPT_EXHAUSTED_TURN).as_slice())
        }
    }

    /// Starts the script over (each task of a session replays it).
    pub fn rewind(&mut self)
        ensures
            final(self).served() == 0,
            final(self).script() == old(self).script(),
    {
        self.next = 0;
    }
}

/// The script of the demo: list the workspace root, then finish.
pub fn scripted_demo_lines() -> (r: Vec<String>)
    ensures
        r@.map_values(|l: String| l@) == seq![DEMO_TURN_LIST@, DEMO_TURN_FINISH@],
{
    let mut v: Vec<String> = Vec::new();
    v.push(string_of(chars_of(DEMO_TURN_LIST).as_slice()));
    v.push(string_of(chars_of(DEMO_TURN_FINISH).as_slice()));
    assert(v@.map_values(|l: String| l@) =~= seq![DEMO_TURN_LIST@, DEMO_TURN_FINISH@]);
    v
}

/// The start of a prompt that the scripted model echoes.
pub fn prompt_preview(prompt: &str) -> (r: String)
    ensures
        r@ == truncated_to(prompt@, PROMPT_PREVIEW_CHARS as nat),
{
    let c = chars_of(prompt);
    string_of(truncate_chars(c.as_slice(), PROMPT_PREVIEW_CHARS).as_slice())
}

} // verus!
