//! The parsed shape of one input line: the commands in order and the
//! operators standing between adjacent commands, plus the in-place alias
//! rewriting that runs between parsing and execution.

use vstd::prelude::*;
use crate::bindings::Bindings;
use crate::command::{spec_kind, Command, CommandView, Operator};
use crate::text::{tokenize, tokens_of};

verus! {

/// The mathematical shape of a command list.
#[verifier::ext_equal]
pub struct CommandListView {
    pub commands: Seq<CommandView>,
    pub operators: Seq<Operator>,
}

/// An ordered sequence of commands and the operators interleaved between
/// them: `operators[i]` relates `commands[i]` to `commands[i + 1]`.
pub struct CommandList {
    pub commands: Vec<Command>,
    pub operators: Vec<Operator>,
}

impl View for CommandList {
    type V = CommandListView;

    open spec fn view(&self) -> CommandListView {
        CommandListView { commands: self.commands.deep_view(), operators: self.operators@ }
    }
}

/// What one command becomes under an alias table: when the table binds the
/// program name, the binding's first token is the new program, its remaining
/// tokens come before the command's own arguments, and the classification is
/// derived anew; otherwise the command stands as it is.
pub open spec fn resolved_command(c: CommandView, aliases: Map<Seq<char>, Seq<char>>) -> CommandView {
    if aliases.contains_key(c.program) {
        let parts = tokens_of(aliases[c.program]);
        if parts.len() > 0 {
            CommandView {
                kind: spec_kind(parts[0]),
                program: parts[0],
                args: parts.drop_first() + c.args,
            }
        } else {
            c
        }
    } else {
        c
    }
}

impl CommandList {
    pub fn new(commands: Vec<Command>, operators: Vec<Operator>) -> (r: CommandList)
        ensures
            r@.commands == commands.deep_view(),
            r@.operators == operators@,
    {
        CommandList { commands, operators }
    }

    /// Rewrites each command through the alias table, in place. Operators and
    /// the number of commands do not change; no alias value is resolved
    /// again.
    pub fn replace_aliases(&mut self, aliases: &Bindings)
        ensures
            final(self)@.operators == old(self)@.operators,
            final(self)@.commands.len() == old(self)@.commands.len(),
            forall|i: int|
                0 <= i < old(self)@.commands.len() ==> final(self)@.commands[i]
                    == resolved_command(#[trigger] old(self)@.commands[i], aliases@),
    {
        let ghost cmds0 = self@.commands;
        let n = self.commands.len();
        let mut i: usize = 0;
        while i < n
            invariant
                i <= n,
                n == self.commands.len(),
                self@.operators == old(self)@.operators,
                cmds0 == old(self)@.commands,
                forall|j: int|
                    0 <= j < i ==> self@.commands[j] == resolved_command(
                        #[trigger] cmds0[j],
                        aliases@,
                    ),
                forall|j: int| i <= j < n ==> self@.commands[j] == #[trigger] cmds0[j],
            decreases n - i,
        {
            let found = match aliases.get(&self.commands[i].command) {
                Some(alias_value) => Some(tokenize(alias_value.as_str())),
                None => None,
            };
            match found {
                Some(parts) => {
                    if parts.len() > 0 {
                        let new_cmd = parts[0].clone();
                        let mut new_args: Vec<String> = Vec::new();
                        let mut k: usize = 1;
                        while k < parts.len()
                            invariant
                                1 <= k <= parts.len(),
                                new_args.deep_view() =~= parts.deep_view().subrange(1, k as int),
                            decreases parts.len() - k,
                        {
                            let ghost nad = new_args.deep_view();
                            new_args.push(parts[k].clone());
                            proof {
                                assert(new_args.deep_view() =~= nad.push(
                                    parts.deep_view()[k as int],
                                ));
                                assert(new_args.deep_view() =~= parts.deep_view().subrange(
                                    1,
                                    k as int + 1,
                                ));
                            }
                            k = k + 1;
                        }
                        let old_args = &self.commands[i].args;
                        let mut m: usize = 0;
                        let ghost base = new_args.deep_view();
                        while m < old_args.len()
                            invariant
                                m <= old_args.len(),
                                old_args == &self.commands@[i as int].args,
                                i < self.commands.len(),
                                new_args.deep_view() =~= base + old_args.deep_view().subrange(
                                    0,
                                    m as int,
                                ),
                            decreases old_args.len() - m,
                        {
                            let ghost nad = new_args.deep_view();
                            new_args.push(old_args[m].clone());
                            proof {
                                assert(new_args.deep_view() =~= nad.push(
                                    old_args.deep_view()[m as int],
                                ));
                                assert(new_args.deep_view() =~= base
                                    + old_args.deep_view().subrange(0, m as int + 1));
                            }
                            m = m + 1;
                        }
                        let replaced = Command::new(new_cmd, new_args);
                        proof {
                            assert(parts.deep_view().subrange(1, parts.deep_view().len() as int)
                                =~= parts.deep_view().drop_first());
                            assert(self.commands@[i as int].args.deep_view().subrange(
                                0,
                                self.commands@[i as int].args.deep_view().len() as int,
                            ) =~= self.commands@[i as int].args.deep_view());
                            assert(replaced@ =~= resolved_command(cmds0[i as int], aliases@));
                        }
                        let ghost dv0 = self.commands.deep_view();
                        self.commands.set(i, replaced);
                        proof {
                            assert(self.commands.deep_view() =~= dv0.update(i as int, replaced@));
                        }
                    }
                },
                None => {},
            }
            i = i + 1;
        }
    }
}

} // verus!
