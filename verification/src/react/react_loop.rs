use vstd::prelude::*;

use super::error::ReactError;
use super::parser::{
    call_parsed_as, final_answer_in, parse_final_answer, parse_react_tool_call, CallIdSeq,
};
use crate::policy::context::PromptContext;
use crate::prompting::render::{build_prompt_with_budget, prompt_text, with_budget};
use crate::prompting::workspace::WorkspaceDocs;
use crate::text::{
    append_chars, append_str, chars_of, is_ws, lemma_split_on_after_sep, lemma_split_on_single,
    lemma_trim_commute, lemma_trim_end_concat, lemma_trim_end_idempotent, lines_of, split_nl,
    strip_cr, string_of, trim, trim_end, trim_start, trim_str,
};
use crate::tools::dispatch::ToolDescriptor;
use crate::tools::types::ToolCall;

verus! {

/// The configuration of a run.
#[derive(Debug, Clone, Copy)]
pub struct ReactConfig {
    /// The most Thought/Action rounds a run takes (guards against loops).
    pub max_steps: usize,
    /// Whether the runner echoes Thought/Action/Observation as it goes.
    pub trace_thinking: bool,
}

impl Default for ReactConfig {
    fn default() -> (r: Self)
        ensures
            r.max_steps == 8,
            !r.trace_thinking,
    {
        ReactConfig { max_steps: 8, trace_thinking: false }
    }
}

/// The orchestrator of a run: the system prompt, the tools and the
/// configuration.
pub struct ReactLoop {
    pub system: String,
    pub tools: Vec<ToolDescriptor>,
    pub config: ReactConfig,
}

impl ReactLoop {
    pub fn new(system: String, tools: Vec<ToolDescriptor>, config: ReactConfig) -> (r: Self)
        ensures
            r.system == system,
            r.tools == tools,
            r.config == config,
    {
        ReactLoop { system, tools, config }
    }

    /// The full prompt of a model call; the harness shows the run's
    /// `max_steps` as its iteration budget.
    pub fn render_prompt(
        &self,
        prompt_ctx: &PromptContext,
        task: &str,
        scratchpad: &str,
        docs: &WorkspaceDocs,
    ) -> (r: String)
        ensures
            r@ == prompt_text(
                self.system@,
                task@,
                scratchpad@,
                self.tools@,
                with_budget(*prompt_ctx, self.config.max_steps),
                *docs,
            ),
    {
        build_prompt_with_budget(
            self.system.as_str(),
            task,
            scratchpad,
            self.tools.as_slice(),
            prompt_ctx,
            self.config.max_steps,
            docs,
        )
    }

    /// A fresh run with this loop's step budget.
    pub fn start_run(&self) -> (r: ReactRun)
        ensures
            r.scratchpad_view() == Seq::<char>::empty(),
            r.steps() == 0,
            r.budget() == self.config.max_steps,
    {
        ReactRun::new(self.config.max_steps)
    }
}

/// What a model turn leads to.
pub enum TurnOutcome {
    /// The run ends with this answer.
    Finished(String),
    /// The run ends with this error.
    Failed(ReactError),
    /// Run this tool call, then record its observation.
    Act(ToolCall),
}

/// The state of one run: the scratchpad the model sees and the turns taken.
pub struct ReactRun {
    scratchpad: Vec<char>,
    steps_taken: usize,
    max_steps: usize,
}

impl ReactRun {
    #[verifier::type_invariant]
    spec fn within_budget(&self) -> bool {
        self.steps_taken <= self.max_steps
    }

    /// The scratchpad so far.
    pub closed spec fn scratchpad_view(&self) -> Seq<char> {
        self.scratchpad@
    }

    /// The model turns taken so far.
    pub closed spec fn steps(&self) -> nat {
        self.steps_taken as nat
    }

    /// The most model turns the run may take.
    pub closed spec fn budget(&self) -> nat {
        self.max_steps as nat
    }

    pub fn new(max_steps: usize) -> (r: Self)
        ensures
            r.scratchpad_view() == Seq::<char>::empty(),
            r.steps() == 0,
            r.budget() == max_steps,
    {
        ReactRun { scratchpad: Vec::new(), steps_taken: 0, max_steps }
    }

    /// Whether the run may take another model turn.  A run never takes
    /// more turns than its budget.
    pub fn has_turns_left(&self) -> (b: bool)
        ensures
            b == (self.steps() < self.budget()),
            self.steps() <= self.budget(),
    {
        proof {
            use_type_invariant(self);
        }
        self.steps_taken < self.max_steps
    }

    /// The scratchpad so far.
    pub fn scratchpad(&self) -> (s: String)
        ensures
            s@ == self.scratchpad_view(),
    {
        string_of(self.scratchpad.as_slice())
    }

    /// Records a model turn and decides what follows: a final answer ends
    /// the run (trimmed), otherwise the turn's tool call is to be run, and a
    /// turn with neither ends the run with `NoActionOrFinal`.
    pub fn absorb_model_output(&mut self, raw: &str, ids: &mut CallIdSeq) -> (r: TurnOutcome)
        requires
            old(self).steps() < old(self).budget(),
        ensures
            final(self).steps() == old(self).steps() + 1,
            final(self).budget() == old(self).budget(),
            final(self).steps() <= final(self).budget(),
            final(self).scratchpad_view() == old(self).scratchpad_view() + trim(raw@) + "\n"@,
            match final_answer_in(lines_of(raw@)) {
                Some(a) => r matches TurnOutcome::Finished(s) && s@ == trim(a)
                    && final(ids).next_value() == old(ids).next_value(),
                None => match r {
                    TurnOutcome::Act(c) => call_parsed_as(
                        raw@,
                        Some(c),
                        old(ids).next_value(),
                        final(ids).next_value(),
                    ),
                    TurnOutcome::Failed(e) => e == ReactError::NoActionOrFinal && call_parsed_as(
                        raw@,
                        None,
                        old(ids).next_value(),
                        final(ids).next_value(),
                    ),
                    TurnOutcome::Finished(_) => false,
                },
            },
    {
        proof {
            use_type_invariant(&*self);
        }
        let t = trim_str(raw);
        let mut sp: Vec<char> = Vec::new();
        append_chars(&mut sp, self.scratchpad.as_slice());
        append_chars(&mut sp, t.as_slice());
        append_str(&mut sp, "\n");
        self.scratchpad = sp;
        self.steps_taken = self.steps_taken + 1;
        match parse_final_answer(raw) {
            Some(answer) => {
                let a = trim_str(answer.as_str());
                return TurnOutcome::Finished(string_of(a.as_slice()));
            },
            None => {},
        }
        match parse_react_tool_call(raw, ids) {
            Some(call) => TurnOutcome::Act(call),
            None => TurnOutcome::Failed(ReactError::NoActionOrFinal),
        }
    }

    /// Records the observation of the tool call of the last turn.
    pub fn absorb_observation(&mut self, observation: &str)
        ensures
            final(self).steps() == old(self).steps(),
            final(self).budget() == old(self).budget(),
            final(self).scratchpad_view() == old(self).scratchpad_view() + "Observation: "@
                + observation@ + "\n"@,
    {
        proof {
            use_type_invariant(&*self);
        }
        let mut sp: Vec<char> = Vec::new();
        append_chars(&mut sp, self.scratchpad.as_slice());
        append_str(&mut sp, "Observation: ");
        append_str(&mut sp, observation);
        append_str(&mut sp, "\n");
        self.scratchpad = sp;
    }
}

/// What the loop treats as the model's turn when the provider fails.
pub open spec fn provider_error_turn(message: Seq<char>) -> Seq<char> {
    "Thought: provider_error\nFinal Answer: "@ + message + "\n"@
}

/// The turn that stands in for a failed model call: the error becomes the
/// final answer.
pub fn provider_error_output(message: &str) -> (r: String)
    ensures
        r@ == provider_error_turn(message@),
{
    let mut v = chars_of("Thought: provider_error\nFinal Answer: ");
    append_str(&mut v, message);
    append_str(&mut v, "\n");
    string_of(v.as_slice())
}

/// A failed model call ends the run: the turn that stands in for it carries
/// the error message (trimmed) as its final answer, for every message on one
/// line.
pub proof fn lemma_provider_error_finishes(message: Seq<char>)
    requires
        !message.contains('\n'),
    ensures
        final_answer_in(lines_of(provider_error_turn(message))) matches Some(a) && trim(a) == trim(
            message,
        ),
{
    let h = "Thought: provider_error"@;
    let f = "Final Answer: "@;
    let fa = "Final Answer:"@;
    reveal_strlit("Thought: provider_error\nFinal Answer: ");
    reveal_strlit("Thought: provider_error");
    reveal_strlit("Final Answer: ");
    reveal_strlit("Final Answer:");
    reveal_strlit("\n");
    let turn = provider_error_turn(message);
    let fm = f + message;
    assert(!h.contains('\n')) by {
        if h.contains('\n') {
            let k = choose|k: int| 0 <= k < h.len() && h[k] == '\n';
        }
    }
    assert(!fm.contains('\n')) by {
        if fm.contains('\n') {
            let k = choose|k: int| 0 <= k < fm.len() && fm[k] == '\n';
            if k >= f.len() {
                assert(message[k - f.len()] == '\n');
            }
        }
    }
    lemma_split_on_single(h, '\n');
    lemma_split_on_after_sep(h, fm, '\n');
    let first = h.push('\n') + fm;
    assert(first.push('\n') + Seq::<char>::empty() =~= turn);
    lemma_split_on_after_sep(first, Seq::<char>::empty(), '\n');
    let p = split_nl(turn);
    assert(p =~= seq![h, fm, Seq::<char>::empty()]);
    let ls = lines_of(turn);
    assert(ls =~= seq![strip_cr(h), strip_cr(fm)]);
    assert(strip_cr(h) == h);
    assert(trim_start(h) == h);
    assert(trim_end(h) == h);
    assert(h[0] != fa[0]);
    assert(h.take(fa.len() as int) != fa) by {
        assert(h.take(fa.len() as int)[0] != fa[0]);
    }
    assert(trim(ls[0]) == h);
    assert(final_answer_in(ls) == final_answer_in(ls.drop_first()));
    assert(ls.drop_first() =~= seq![strip_cr(fm)]);
    let m2 = if message.len() > 0 && message.last() == '\r' {
        message.drop_last()
    } else {
        message
    };
    let l = strip_cr(fm);
    assert(l =~= f + m2);
    assert(trim(m2) == trim(message)) by {
        lemma_trim_commute(m2);
        lemma_trim_commute(message);
        if m2 != message {
            assert(message.drop_last() == m2);
            assert(is_ws(message.last()));
        }
    }
    assert(trim_start(l) == l) by {
        assert(l[0] == 'F');
    }
    lemma_trim_end_concat(f, m2);
    assert(trim_end(f) =~= fa) by {
        assert(f.drop_last() =~= fa);
        assert(is_ws(f.last()));
        assert(!is_ws(fa.last()));
        assert(trim_end(fa) == fa);
        assert(trim_end(f) == trim_end(f.drop_last()));
    }
    let te = trim_end(m2);
    lemma_trim_commute(m2);
    lemma_trim_end_idempotent(m2);
    if te.len() == 0 {
        assert(trim(l) == fa);
        assert(fa.take(fa.len() as int) =~= fa);
        assert(fa.skip(fa.len() as int) =~= Seq::<char>::empty());
        assert(trim_start(te) == te);
        assert(final_answer_in(seq![l]) == Some(Seq::<char>::empty()));
    } else {
        let tl = f + te;
        assert(trim(l) == tl);
        assert(tl.take(fa.len() as int) =~= fa);
        let rest = tl.skip(fa.len() as int);
        assert(rest =~= seq![' '] + te);
        assert(rest[0] == ' ');
        assert(rest.drop_first() =~= te);
        assert(trim_start(rest) == trim_start(te));
        lemma_trim_commute(te);
        assert(final_answer_in(seq![l]) == Some(rest));
    }
}

} // verus!
