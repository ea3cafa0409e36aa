//! The execution plan: the engine's walk over a command list, decided ahead
//! of any process being spawned. A stage names a program and arguments, says
//! where its standard input comes from and where its standard output goes,
//! and a command standing right after a redirect operator is consumed as the
//! redirect's file target, never as a stage of its own.

use vstd::prelude::*;
use crate::command::{CommandView, Operator};
use crate::command_list::CommandList;

verus! {

/// Where a stage's standard output goes.
pub enum StageOutput {
    /// The shell's own standard output: the last command of a pipeline.
    Inherit,
    /// A pipe read by the next stage.
    Piped,
    /// Captured and written to the named file, truncating it.
    Overwrite { target: String },
    /// Captured and appended to the named file.
    Append { target: String },
}

/// The mathematical shape of a stage's output assignment.
#[verifier::ext_equal]
pub enum StageOutputView {
    Inherit,
    Piped,
    Overwrite { target: Seq<char> },
    Append { target: Seq<char> },
}

impl View for StageOutput {
    type V = StageOutputView;

    open spec fn view(&self) -> StageOutputView {
        match self {
            StageOutput::Inherit => StageOutputView::Inherit,
            StageOutput::Piped => StageOutputView::Piped,
            StageOutput::Overwrite { target } => StageOutputView::Overwrite { target: target@ },
            StageOutput::Append { target } => StageOutputView::Append { target: target@ },
        }
    }
}

/// One pipeline stage: the process to run and its wiring. A stage whose
/// output is a redirect runs to completion on its own, with its captured
/// output written to the target file; the others run concurrently.
pub struct Stage {
    pub program: String,
    pub args: Vec<String>,
    pub stdin_from_pipe: bool,
    pub output: StageOutput,
}

/// The mathematical shape of a stage.
#[verifier::ext_equal]
pub struct StageView {
    pub program: Seq<char>,
    pub args: Seq<Seq<char>>,
    pub stdin_from_pipe: bool,
    pub output: StageOutputView,
}

impl View for Stage {
    type V = StageView;

    open spec fn view(&self) -> StageView {
        StageView {
            program: self.program@,
            args: self.args.deep_view(),
            stdin_from_pipe: self.stdin_from_pipe,
            output: self.output@,
        }
    }
}

impl DeepView for Stage {
    type V = StageView;

    open spec fn deep_view(&self) -> StageView {
        self.view()
    }
}

/// The stages of one command list, in spawn order.
pub struct ExecutionPlan {
    pub stages: Vec<Stage>,
}

impl View for ExecutionPlan {
    type V = Seq<StageView>;

    open spec fn view(&self) -> Seq<StageView> {
        self.stages.deep_view()
    }
}

/// Whether an operator is one of the two redirects.
pub open spec fn is_redirect(op: Operator) -> bool {
    op == Operator::RedirectOverwrite || op == Operator::RedirectAppend
}

/// Whether command `i` is consumed as a redirect's file target: it stands
/// right after a redirect operator whose left command is itself executed.
pub open spec fn sink_at(ops: Seq<Operator>, i: int) -> bool
    decreases i,
{
    if i <= 0 {
        false
    } else {
        &&& !sink_at(ops, i - 1)
        &&& i - 1 < ops.len()
        &&& is_redirect(ops[i - 1])
    }
}

/// The indices of the commands among the first `n` that become stages: those
/// not consumed as redirect targets, in order.
pub open spec fn stage_sources(ops: Seq<Operator>, n: int) -> Seq<int>
    decreases n,
{
    if n <= 0 {
        Seq::empty()
    } else if sink_at(ops, n - 1) {
        stage_sources(ops, n - 1)
    } else {
        stage_sources(ops, n - 1).push(n - 1)
    }
}

/// Whether the stage made of command `i` reads its standard input from the
/// previous stage's pipe: the command before it was executed, and a pipe
/// operator stands between them.
pub open spec fn pipe_into(ops: Seq<Operator>, i: int) -> bool {
    &&& i >= 1
    &&& !sink_at(ops, i - 1)
    &&& i - 1 < ops.len()
    &&& ops[i - 1] == Operator::Pipe
}

/// The output assignment of the stage made of command `i`: decided by the
/// operator following the command, a redirect taking the next command's
/// program as its file target.
pub open spec fn output_at(cmds: Seq<CommandView>, ops: Seq<Operator>, i: int) -> StageOutputView {
    if 0 <= i < ops.len() {
        match ops[i] {
            Operator::Pipe => StageOutputView::Piped,
            Operator::RedirectOverwrite => StageOutputView::Overwrite {
                target: cmds[i + 1].program,
            },
            Operator::RedirectAppend => StageOutputView::Append { target: cmds[i + 1].program },
        }
    } else {
        StageOutputView::Inherit
    }
}

/// The stage made of command `i`.
pub open spec fn stage_at(cmds: Seq<CommandView>, ops: Seq<Operator>, i: int) -> StageView {
    StageView {
        program: cmds[i].program,
        args: cmds[i].args,
        stdin_from_pipe: pipe_into(ops, i),
        output: output_at(cmds, ops, i),
    }
}

/// Whether every executed redirect has a command after it to take as its
/// file target. A list that fails this cannot be planned.
pub open spec fn plan_safe(cmds_len: int, ops: Seq<Operator>) -> bool {
    forall|i: int|
        0 <= i < cmds_len && !sink_at(ops, i) && i < ops.len() && is_redirect(#[trigger] ops[i])
            ==> i + 1 < cmds_len
}

/// The full plan of a command list: the stage of each executed command, in
/// order.
pub open spec fn spec_plan(cmds: Seq<CommandView>, ops: Seq<Operator>) -> Seq<StageView> {
    stage_sources(ops, cmds.len() as int).map_values(|i: int| stage_at(cmds, ops, i))
}

impl CommandList {
    /// Plans this command list: the stages to run, in spawn order. Yields
    /// nothing exactly when a redirect operator lacks a following command to
    /// name its file target.
    pub fn build_plan(&self) -> (r: Option<ExecutionPlan>)
        ensures
            match r {
                Some(p) => {
                    &&& plan_safe(self@.commands.len() as int, self@.operators)
                    &&& p@ == spec_plan(self@.commands, self@.operators)
                },
                None => !plan_safe(self@.commands.len() as int, self@.operators),
            },
    {
        let ghost cmds = self@.commands;
        let ghost ops = self@.operators;
        let n = self.commands.len();
        let mut stages: Vec<Stage> = Vec::new();
        let mut skip_next = false;
        let mut i: usize = 0;
        proof {
            assert(stages.deep_view() =~= stage_sources(ops, 0).map_values(
                |k: int| stage_at(cmds, ops, k),
            ));
        }
        while i < n
            invariant
                i <= n,
                n == self.commands.len(),
                cmds == self@.commands,
                ops == self@.operators,
                skip_next == sink_at(ops, i as int),
                stages.deep_view() == stage_sources(ops, i as int).map_values(
                    |k: int| stage_at(cmds, ops, k),
                ),
                forall|j: int|
                    0 <= j < i && !sink_at(ops, j) && j < ops.len() && is_redirect(
                        #[trigger] ops[j],
                    ) ==> j + 1 < n,
            decreases n - i,
        {
            if skip_next {
                skip_next = false;
                proof {
                    assert(!sink_at(ops, i as int + 1));
                    assert(stage_sources(ops, i as int + 1) =~= stage_sources(ops, i as int));
                }
                i = i + 1;
                continue ;
            }
            let has_op = i < self.operators.len();
            let mut output: StageOutput = StageOutput::Inherit;
            if has_op {
                let op = self.operators[i];
                match op {
                    Operator::Pipe => {
                        output = StageOutput::Piped;
                    },
                    Operator::RedirectOverwrite => {
                        if i + 1 >= n {
                            proof {
                                assert(!plan_safe(cmds.len() as int, ops));
                            }
                            return None;
                        }
                        output = StageOutput::Overwrite {
                            target: self.commands[i + 1].command.clone(),
                        };
                    },
                    Operator::RedirectAppend => {
                        if i + 1 >= n {
                            proof {
                                assert(!plan_safe(cmds.len() as int, ops));
                            }
                            return None;
                        }
                        output = StageOutput::Append {
                            target: self.commands[i + 1].command.clone(),
                        };
                    },
                }
            }
            let stdin_from_pipe = if i > 0 && i - 1 < self.operators.len() {
                let prev_executed = !was_sink(&self.operators, i - 1);
                prev_executed && matches!(self.operators[i - 1], Operator::Pipe)
            } else {
                false
            };
            let mut args: Vec<String> = Vec::new();
            let cmd_args = &self.commands[i].args;
            let mut k: usize = 0;
            while k < cmd_args.len()
                invariant
                    k <= cmd_args.len(),
                    args.deep_view() =~= cmd_args.deep_view().subrange(0, k as int),
                decreases cmd_args.len() - k,
            {
                let ghost ad = args.deep_view();
                args.push(cmd_args[k].clone());
                proof {
                    assert(args.deep_view() =~= ad.push(cmd_args.deep_view()[k as int]));
                    assert(args.deep_view() =~= cmd_args.deep_view().subrange(0, k as int + 1));
                }
                k = k + 1;
            }
            proof {
                assert(cmd_args.deep_view().subrange(0, cmd_args.deep_view().len() as int)
                    =~= cmd_args.deep_view());
            }
            let stage = Stage {
                program: self.commands[i].command.clone(),
                args,
                stdin_from_pipe,
                output,
            };
            let ghost sd = stages.deep_view();
            skip_next = has_op && matches!(self.operators[i], Operator::RedirectOverwrite
                | Operator::RedirectAppend);
            stages.push(stage);
            proof {
                assert(stage@ =~= stage_at(cmds, ops, i as int));
                assert(stage_sources(ops, i as int + 1) =~= stage_sources(ops, i as int).push(
                    i as int,
                ));
                assert(stages.deep_view() =~= sd.push(stage@));
                assert(stages.deep_view() =~= stage_sources(ops, i as int + 1).map_values(
                    |k: int| stage_at(cmds, ops, k),
                ));
                assert(skip_next == sink_at(ops, i as int + 1));
            }
            i = i + 1;
        }
        proof {
            assert(plan_safe(cmds.len() as int, ops));
            assert(stage_sources(ops, cmds.len() as int).map_values(
                |k: int| stage_at(cmds, ops, k),
            ) == spec_plan(cmds, ops));
        }
        Some(ExecutionPlan { stages })
    }
}

/// Every stage source is a command index that is not a redirect target.
proof fn lemma_stage_sources_sound(ops: Seq<Operator>, n: int)
    ensures
        forall|k: int|
            0 <= k < stage_sources(ops, n).len() ==> 0 <= #[trigger] stage_sources(ops, n)[k] < n
                && !sink_at(ops, stage_sources(ops, n)[k]),
    decreases n,
{
    if n > 0 {
        lemma_stage_sources_sound(ops, n - 1);
        let prev = stage_sources(ops, n - 1);
        let cur = stage_sources(ops, n);
        assert forall|k: int|
            0 <= k < cur.len() implies 0 <= #[trigger] cur[k] < n && !sink_at(ops, cur[k]) by {
            if sink_at(ops, n - 1) {
                assert(cur == prev);
            } else {
                assert(cur == prev.push(n - 1));
                if k < prev.len() {
                    assert(cur[k] == prev[k]);
                } else {
                    assert(cur[k] == n - 1);
                }
            }
        }
    }
}

/// Stage sources come in strictly increasing command order.
proof fn lemma_stage_sources_increasing(ops: Seq<Operator>, n: int)
    ensures
        forall|k1: int, k2: int|
            0 <= k1 < k2 < stage_sources(ops, n).len() ==> #[trigger] stage_sources(ops, n)[k1]
                < #[trigger] stage_sources(ops, n)[k2],
    decreases n,
{
    if n > 0 {
        lemma_stage_sources_increasing(ops, n - 1);
        lemma_stage_sources_sound(ops, n - 1);
        let prev = stage_sources(ops, n - 1);
        let cur = stage_sources(ops, n);
        assert forall|k1: int, k2: int|
            0 <= k1 < k2 < cur.len() implies #[trigger] cur[k1] < #[trigger] cur[k2] by {
            if sink_at(ops, n - 1) {
                assert(cur == prev);
            } else {
                assert(cur == prev.push(n - 1));
                assert(cur[k1] == prev[k1]);
                if k2 < prev.len() {
                    assert(cur[k2] == prev[k2]);
                } else {
                    assert(cur[k2] == n - 1);
                    assert(prev[k1] < n - 1);
                }
            }
        }
    }
}

/// Every command that is not a redirect target is a stage source.
proof fn lemma_stage_sources_complete(ops: Seq<Operator>, n: int, j: int)
    requires
        0 <= j < n,
        !sink_at(ops, j),
    ensures
        exists|k: int|
            0 <= k < stage_sources(ops, n).len() && #[trigger] stage_sources(ops, n)[k] == j,
    decreases n,
{
    if j == n - 1 {
        assert(stage_sources(ops, n)[stage_sources(ops, n).len() - 1] == j);
    } else {
        lemma_stage_sources_complete(ops, n - 1, j);
        let k = choose|k: int|
            0 <= k < stage_sources(ops, n - 1).len() && #[trigger] stage_sources(ops, n - 1)[k]
                == j;
        assert(stage_sources(ops, n)[k] == j);
    }
}

/// The redirect skip invariant: a command standing right after an executed
/// redirect operator is consumed as the redirect's file target and is never
/// one of the plan's stages.
pub proof fn lemma_redirect_sink_never_staged(cmds: Seq<CommandView>, ops: Seq<Operator>, i: int)
    requires
        0 <= i < ops.len(),
        is_redirect(ops[i]),
        !sink_at(ops, i),
    ensures
        sink_at(ops, i + 1),
        forall|k: int|
            0 <= k < spec_plan(cmds, ops).len() ==> #[trigger] stage_sources(
                ops,
                cmds.len() as int,
            )[k] != i + 1,
{
    lemma_stage_sources_sound(ops, cmds.len() as int);
}

/// The pipe wiring invariant: the first stage of a plan never reads a pipe,
/// and a later stage reads its standard input from a pipe exactly when the
/// stage before it writes its standard output into one.
pub proof fn lemma_pipe_wiring(cmds: Seq<CommandView>, ops: Seq<Operator>, k: int)
    requires
        0 <= k,
        k + 1 < spec_plan(cmds, ops).len(),
    ensures
        spec_plan(cmds, ops)[0].stdin_from_pipe == false,
        spec_plan(cmds, ops)[k + 1].stdin_from_pipe <==> spec_plan(cmds, ops)[k].output
            is Piped,
{
    let n = cmds.len() as int;
    let srcs = stage_sources(ops, n);
    lemma_stage_sources_sound(ops, n);
    lemma_stage_sources_increasing(ops, n);
    lemma_stage_sources_complete(ops, n, 0);
    let k0 = choose|m: int| 0 <= m < srcs.len() && #[trigger] srcs[m] == 0;
    assert(k0 == 0) by {
        if k0 > 0 {
            assert(srcs[0] < srcs[k0]);
        }
    }
    assert(spec_plan(cmds, ops)[0] == stage_at(cmds, ops, 0));
    let a = srcs[k];
    let b = srcs[k + 1];
    assert(a < b);
    assert(spec_plan(cmds, ops)[k] == stage_at(cmds, ops, a));
    assert(spec_plan(cmds, ops)[k + 1] == stage_at(cmds, ops, b));
    if b > a + 1 {
        // the command between them is a redirect target, so the gap is one
        // wide and the left stage is a redirect stage
        assert(sink_at(ops, a + 1)) by {
            if !sink_at(ops, a + 1) {
                lemma_stage_sources_complete(ops, n, a + 1);
                let m = choose|m: int| 0 <= m < srcs.len() && #[trigger] srcs[m] == a + 1;
                if m <= k {
                    assert(srcs[m] <= srcs[k]) by {
                        if m < k {
                            assert(srcs[m] < srcs[k]);
                        }
                    }
                } else {
                    assert(srcs[k + 1] <= srcs[m]) by {
                        if k + 1 < m {
                            assert(srcs[k + 1] < srcs[m]);
                        }
                    }
                }
            }
        }
        assert(b == a + 2) by {
            if b > a + 2 {
                assert(!sink_at(ops, a + 2));
                lemma_stage_sources_complete(ops, n, a + 2);
                let m = choose|m: int| 0 <= m < srcs.len() && #[trigger] srcs[m] == a + 2;
                if m <= k {
                    assert(srcs[m] <= srcs[k]) by {
                        if m < k {
                            assert(srcs[m] < srcs[k]);
                        }
                    }
                } else {
                    assert(srcs[k + 1] <= srcs[m]) by {
                        if k + 1 < m {
                            assert(srcs[k + 1] < srcs[m]);
                        }
                    }
                }
            }
        }
        assert(is_redirect(ops[a]));
        assert(!pipe_into(ops, b));
        assert(!(output_at(cmds, ops, a) is Piped));
    } else {
        assert(b == a + 1);
        assert(!sink_at(ops, a));
        assert(pipe_into(ops, b) <==> (a < ops.len() && ops[a] == Operator::Pipe));
        assert((output_at(cmds, ops, a) is Piped) <==> (0 <= a < ops.len() && ops[a]
            == Operator::Pipe));
    }
}

/// Whether command `j` is a redirect target, decided the way the walk does:
/// executable mirror of `sink_at`.
fn was_sink(ops: &Vec<Operator>, j: usize) -> (r: bool)
    requires
        j < usize::MAX,
    ensures
        r == sink_at(ops@, j as int),
    decreases j,
{
    if j == 0 {
        false
    } else {
        !was_sink(ops, j - 1) && j - 1 < ops.len() && matches!(ops[j - 1], Operator::RedirectOverwrite
            | Operator::RedirectAppend)
    }
}

} // verus!
