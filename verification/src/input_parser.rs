//! The input parser: splits a raw line into whitespace-delimited tokens,
//! recognizes the operator tokens `|`, `>` and `>>`, expands every other
//! token, and assembles the commands and the operators between them.

use vstd::prelude::*;
use crate::bindings::Bindings;
use crate::command::{spec_kind, Command, CommandError, CommandView};
use crate::command::Operator;
use crate::command_list::CommandList;
use crate::expand::{expand, expand_token_spec};
use crate::logger::Logger;
use crate::text::{str_eq, tokenize, tokens_of};

verus! {

/// Whether a raw token is one of the three operator tokens.
pub open spec fn operator_token(t: Seq<char>) -> bool {
    t == "|"@ || t == ">"@ || t == ">>"@
}

/// The operator a raw operator token stands for.
pub open spec fn operator_of(t: Seq<char>) -> Operator {
    if t == "|"@ {
        Operator::Pipe
    } else if t == ">"@ {
        Operator::RedirectOverwrite
    } else {
        Operator::RedirectAppend
    }
}

/// The command a flushed token buffer stands for: the first token is the
/// program, the rest are its arguments, and the classification is derived
/// from the program.
pub open spec fn command_of_buf(buf: Seq<Seq<char>>) -> CommandView
    recommends
        buf.len() > 0,
{
    CommandView { kind: spec_kind(buf[0]), program: buf[0], args: buf.drop_first() }
}

/// The commands parsed from `tokens` with the expanded tokens of `buf`
/// already pending: an operator token flushes a non-empty pending buffer,
/// every other token is expanded and appended to it, and a non-empty buffer
/// left at the end is flushed too.
pub open spec fn commands_of(
    tokens: Seq<Seq<char>>,
    env: Map<Seq<char>, Seq<char>>,
    buf: Seq<Seq<char>>,
) -> Seq<CommandView>
    decreases tokens.len(),
{
    if tokens.len() == 0 {
        if buf.len() == 0 {
            Seq::empty()
        } else {
            seq![command_of_buf(buf)]
        }
    } else if operator_token(tokens[0]) {
        if buf.len() == 0 {
            commands_of(tokens.drop_first(), env, Seq::empty())
        } else {
            seq![command_of_buf(buf)] + commands_of(tokens.drop_first(), env, Seq::empty())
        }
    } else {
        commands_of(tokens.drop_first(), env, buf.push(expand_token_spec(tokens[0], env)))
    }
}

/// The operators parsed from `tokens`: one for each operator token, in input
/// order.
pub open spec fn operators_of(tokens: Seq<Seq<char>>) -> Seq<Operator>
    decreases tokens.len(),
{
    if tokens.len() == 0 {
        Seq::empty()
    } else if operator_token(tokens[0]) {
        seq![operator_of(tokens[0])] + operators_of(tokens.drop_first())
    } else {
        operators_of(tokens.drop_first())
    }
}

/// Parses raw input lines against a given environment.
pub struct InputParser {
    pub logger: Logger,
}

impl InputParser {
    pub fn new() -> (r: InputParser)
        ensures
            r.logger.debug_enabled == false,
    {
        InputParser { logger: Logger::new(false) }
    }

    /// Expands one token: tilde expansion against the home-directory
    /// binding, then environment-variable expansion.
    pub fn expand(token: &str, env: &Bindings) -> (r: String)
        ensures
            r@ == expand_token_spec(token@, env@),
    {
        expand(token, env)
    }

    /// Parses one line of input. The input's tokens yield the commands and
    /// the operators between them; an input without tokens is rejected.
    pub fn parse(&self, input: String, env: &Bindings) -> (r: Result<CommandList, CommandError>)
        ensures
            match r {
                Ok(cl) => {
                    &&& tokens_of(input@).len() > 0
                    &&& cl@.commands == commands_of(tokens_of(input@), env@, Seq::empty())
                    &&& cl@.operators == operators_of(tokens_of(input@))
                },
                Err(e) => {
                    &&& e == CommandError::Empty
                    &&& tokens_of(input@).len() == 0
                },
            },
    {
        let tokens = tokenize(input.as_str());
        let ghost toks = tokens.deep_view();
        if tokens.len() == 0 {
            return Err(CommandError::Empty);
        }
        let n = tokens.len();
        let mut commands: Vec<Command> = Vec::new();
        let mut operators: Vec<Operator> = Vec::new();
        let mut current_cmd: Vec<String> = Vec::new();
        let mut i: usize = 0;
        proof {
            assert(toks.skip(0) =~= toks);
            assert(commands.deep_view() =~= Seq::<CommandView>::empty());
            assert(current_cmd.deep_view() =~= Seq::<Seq<char>>::empty());
            assert(Seq::<CommandView>::empty() + commands_of(toks, env@, Seq::empty())
                =~= commands_of(toks, env@, Seq::empty()));
            assert(Seq::<Operator>::empty() + operators_of(toks) =~= operators_of(toks));
        }
        while i < n
            invariant
                i <= n,
                n == tokens.len(),
                toks == tokens.deep_view(),
                commands.deep_view() + commands_of(toks.skip(i as int), env@, current_cmd.deep_view())
                    == commands_of(toks, env@, Seq::empty()),
                operators@ + operators_of(toks.skip(i as int)) == operators_of(toks),
            decreases n - i,
        {
            let ghost rest = toks.skip(i as int);
            let ghost buf = current_cmd.deep_view();
            proof {
                assert(rest[0] == toks[i as int]);
                assert(rest.drop_first() =~= toks.skip(i as int + 1));
            }
            let token = &tokens[i];
            let is_pipe = str_eq(token.as_str(), "|");
            let is_over = str_eq(token.as_str(), ">");
            let is_append = str_eq(token.as_str(), ">>");
            if is_pipe || is_over || is_append {
                if current_cmd.len() > 0 {
                    let cmd = Self::flush(&current_cmd);
                    let ghost cd = commands.deep_view();
                    commands.push(cmd);
                    proof {
                        assert(commands.deep_view() =~= cd.push(command_of_buf(buf)));
                        assert(cd.push(command_of_buf(buf)) =~= cd + seq![command_of_buf(buf)]);
                    }
                    current_cmd.clear();
                } else {
                    proof {
                        assert(buf.len() == 0);
                    }
                }
                let op = if is_pipe {
                    Operator::Pipe
                } else if is_over {
                    Operator::RedirectOverwrite
                } else {
                    Operator::RedirectAppend
                };
                let ghost od = operators@;
                operators.push(op);
                proof {
                    assert(op == operator_of(rest[0]));
                    assert(operators@ =~= od + seq![op]);
                    assert(od + (seq![op] + operators_of(toks.skip(i as int + 1))) =~= (od + seq![
                        op,
                    ]) + operators_of(toks.skip(i as int + 1)));
                    assert(current_cmd.deep_view() =~= Seq::<Seq<char>>::empty());
                    assert(commands.deep_view() + (Seq::<CommandView>::empty()
                        + commands_of(toks.skip(i as int + 1), env@, Seq::empty()))
                        =~= commands.deep_view() + commands_of(
                        toks.skip(i as int + 1),
                        env@,
                        Seq::empty(),
                    ));
                }
            } else {
                let expanded = Self::expand(token.as_str(), env);
                let ghost bd = current_cmd.deep_view();
                current_cmd.push(expanded);
                proof {
                    assert(current_cmd.deep_view() =~= bd.push(
                        expand_token_spec(rest[0], env@),
                    ));
                }
            }
            i = i + 1;
        }
        proof {
            assert(toks.skip(n as int) =~= Seq::<Seq<char>>::empty());
        }
        if current_cmd.len() > 0 {
            let cmd = Self::flush(&current_cmd);
            let ghost cd = commands.deep_view();
            commands.push(cmd);
            proof {
                assert(commands.deep_view() =~= cd.push(command_of_buf(current_cmd.deep_view())));
                assert(cd.push(command_of_buf(current_cmd.deep_view())) =~= cd + seq![
                    command_of_buf(current_cmd.deep_view()),
                ]);
            }
        } else {
            proof {
                assert(current_cmd.deep_view().len() == 0);
            }
        }
        proof {
            assert(commands.deep_view() + Seq::<CommandView>::empty() =~= commands.deep_view());
            assert(operators@ + Seq::<Operator>::empty() =~= operators@);
        }
        Ok(CommandList::new(commands, operators))
    }

    /// Turns a non-empty token buffer into a command: first token the
    /// program, the rest its arguments.
    fn flush(buf: &Vec<String>) -> (r: Command)
        requires
            buf.deep_view().len() > 0,
        ensures
            r@ == command_of_buf(buf.deep_view()),
    {
        let program = buf[0].clone();
        let mut args: Vec<String> = Vec::new();
        let mut k: usize = 1;
        while k < buf.len()
            invariant
                1 <= k <= buf.len(),
                args.deep_view() =~= buf.deep_view().subrange(1, k as int),
            decreases buf.len() - k,
        {
            let ghost ad = args.deep_view();
            args.push(buf[k].clone());
            proof {
                assert(args.deep_view() =~= ad.push(buf.deep_view()[k as int]));
                assert(args.deep_view() =~= buf.deep_view().subrange(1, k as int + 1));
            }
            k = k + 1;
        }
        proof {
            assert(buf.deep_view().subrange(1, buf.deep_view().len() as int) =~= buf.deep_view()
                .drop_first());
        }
        let r = Command::new(program, args);
        proof {
            assert(r@ =~= command_of_buf(buf.deep_view()));
        }
        r
    }
}

/// An input of only whitespace has no tokens. With `parse`'s contract: every
/// input that is empty or only whitespace is rejected as empty input.
pub proof fn lemma_blank_input_no_tokens(s: Seq<char>)
    requires
        forall|i: int| 0 <= i < s.len() ==> crate::text::unicode_whitespace(#[trigger] s[i]),
    ensures
        tokens_of(s).len() == 0,
{
    lemma_blank_rec(s);
}

proof fn lemma_blank_rec(s: Seq<char>)
    requires
        forall|i: int| 0 <= i < s.len() ==> crate::text::unicode_whitespace(#[trigger] s[i]),
    ensures
        crate::text::tokens_rec(s, Seq::empty()) == Seq::<Seq<char>>::empty(),
    decreases s.len(),
{
    if s.len() > 0 {
        assert forall|i: int| 0 <= i < s.drop_first().len() implies crate::text::unicode_whitespace(
            #[trigger] s.drop_first()[i],
        ) by {
            assert(s.drop_first()[i] == s[i + 1]);
        }
        lemma_blank_rec(s.drop_first());
    }
}

/// An input whose tokens hold no operator token parses to exactly one
/// command: the first token, expanded, is its program, and the remaining
/// tokens, expanded and in order, are its arguments. No operator is parsed.
pub proof fn lemma_no_operators_single_command(tokens: Seq<Seq<char>>, env: Map<Seq<char>, Seq<char>>)
    requires
        tokens.len() > 0,
        forall|i: int| 0 <= i < tokens.len() ==> !operator_token(#[trigger] tokens[i]),
    ensures
        commands_of(tokens, env, Seq::empty()).len() == 1,
        commands_of(tokens, env, Seq::empty())[0].program == expand_token_spec(tokens[0], env),
        commands_of(tokens, env, Seq::empty())[0].args == tokens.drop_first().map_values(
            |t: Seq<char>| expand_token_spec(t, env),
        ),
        operators_of(tokens).len() == 0,
{
    lemma_no_operators_rec(tokens, env, Seq::empty());
    let buf = Seq::<Seq<char>>::empty();
    assert(buf + tokens.map_values(|t: Seq<char>| expand_token_spec(t, env)) =~= tokens.map_values(
        |t: Seq<char>| expand_token_spec(t, env),
    ));
    assert(tokens.map_values(|t: Seq<char>| expand_token_spec(t, env))[0] == expand_token_spec(
        tokens[0],
        env,
    ));
    assert(tokens.map_values(|t: Seq<char>| expand_token_spec(t, env)).drop_first()
        =~= tokens.drop_first().map_values(|t: Seq<char>| expand_token_spec(t, env)));
    lemma_no_operators_no_ops(tokens);
}

proof fn lemma_no_operators_no_ops(tokens: Seq<Seq<char>>)
    requires
        forall|i: int| 0 <= i < tokens.len() ==> !operator_token(#[trigger] tokens[i]),
    ensures
        operators_of(tokens).len() == 0,
    decreases tokens.len(),
{
    if tokens.len() > 0 {
        assert forall|i: int| 0 <= i < tokens.drop_first().len() implies !operator_token(
            #[trigger] tokens.drop_first()[i],
        ) by {
            assert(tokens.drop_first()[i] == tokens[i + 1]);
        }
        lemma_no_operators_no_ops(tokens.drop_first());
    }
}

proof fn lemma_no_operators_rec(
    tokens: Seq<Seq<char>>,
    env: Map<Seq<char>, Seq<char>>,
    buf: Seq<Seq<char>>,
)
    requires
        buf.len() + tokens.len() > 0,
        forall|i: int| 0 <= i < tokens.len() ==> !operator_token(#[trigger] tokens[i]),
    ensures
        commands_of(tokens, env, buf) == seq![
            command_of_buf(buf + tokens.map_values(|t: Seq<char>| expand_token_spec(t, env))),
        ],
    decreases tokens.len(),
{
    if tokens.len() == 0 {
        assert(buf + tokens.map_values(|t: Seq<char>| expand_token_spec(t, env)) =~= buf);
    } else {
        assert forall|i: int| 0 <= i < tokens.drop_first().len() implies !operator_token(
            #[trigger] tokens.drop_first()[i],
        ) by {
            assert(tokens.drop_first()[i] == tokens[i + 1]);
        }
        lemma_no_operators_rec(tokens.drop_first(), env, buf.push(expand_token_spec(tokens[0], env)));
        assert(buf.push(expand_token_spec(tokens[0], env)) + tokens.drop_first().map_values(
            |t: Seq<char>| expand_token_spec(t, env),
        ) =~= buf + tokens.map_values(|t: Seq<char>| expand_token_spec(t, env)));
    }
}

/// The parsed operators are exactly the operator tokens of the input, in
/// input order: an input with `n` operator tokens, in any mix, parses to `n`
/// operators whose order matches the input.
pub proof fn lemma_operators_match_input(tokens: Seq<Seq<char>>)
    ensures
        operators_of(tokens) == tokens.filter(|t: Seq<char>| operator_token(t)).map_values(
            |t: Seq<char>| operator_of(t),
        ),
    decreases tokens.len(),
{
    reveal(Seq::filter);
    let pred = |t: Seq<char>| operator_token(t);
    let f = |t: Seq<char>| operator_of(t);
    if tokens.len() == 0 {
        assert(tokens.filter(pred) =~= Seq::<Seq<char>>::empty());
        assert(operators_of(tokens) =~= tokens.filter(pred).map_values(f));
    } else {
        let head = seq![tokens[0]];
        let rest = tokens.drop_first();
        lemma_operators_match_input(rest);
        assert(tokens =~= head + rest);
        Seq::filter_distributes_over_add(head, rest, pred);
        assert(head.drop_last() =~= Seq::<Seq<char>>::empty());
        assert(Seq::<Seq<char>>::empty().filter(pred) =~= Seq::<Seq<char>>::empty());
        assert(head.last() == tokens[0]);
        assert(Seq::<Seq<char>>::empty().push(tokens[0]) =~= head);
        assert(head.filter(pred) =~= if operator_token(tokens[0]) {
            head
        } else {
            Seq::<Seq<char>>::empty()
        });
        assert((head.filter(pred) + rest.filter(pred)).map_values(f) =~= head.filter(pred).map_values(
            f,
        ) + rest.filter(pred).map_values(f));
        if operator_token(tokens[0]) {
            assert(head.map_values(f) =~= seq![operator_of(tokens[0])]);
            assert(operators_of(tokens) =~= seq![operator_of(tokens[0])] + operators_of(rest));
        }
        assert(operators_of(tokens) =~= tokens.filter(pred).map_values(f));
    }
}

/// An input whose segments between operator tokens are all non-empty — some
/// token stands before the first operator, after the last, and between any
/// two — parses to one command more than it has operators.
pub proof fn lemma_segments_command_count(tokens: Seq<Seq<char>>, env: Map<Seq<char>, Seq<char>>)
    requires
        tokens.len() > 0,
        !operator_token(tokens[0]),
        !operator_token(tokens.last()),
        forall|i: int|
            0 <= i < tokens.len() - 1 ==> !(operator_token(#[trigger] tokens[i]) && operator_token(
                tokens[i + 1],
            )),
    ensures
        commands_of(tokens, env, Seq::empty()).len() == operators_of(tokens).len() + 1,
{
    lemma_segments_rec(tokens, env, Seq::empty());
}

proof fn lemma_segments_rec(tokens: Seq<Seq<char>>, env: Map<Seq<char>, Seq<char>>, buf: Seq<Seq<char>>)
    requires
        buf.len() > 0 || (tokens.len() > 0 && !operator_token(tokens[0])),
        tokens.len() > 0 ==> !operator_token(tokens.last()),
        forall|i: int|
            0 <= i < tokens.len() - 1 ==> !(operator_token(#[trigger] tokens[i]) && operator_token(
                tokens[i + 1],
            )),
    ensures
        commands_of(tokens, env, buf).len() == operators_of(tokens).len() + 1,
    decreases tokens.len(),
{
    if tokens.len() == 0 {
    } else {
        let rest = tokens.drop_first();
        assert forall|i: int|
            0 <= i < rest.len() - 1 implies !(operator_token(#[trigger] rest[i]) && operator_token(
            rest[i + 1],
        )) by {
            assert(rest[i] == tokens[i + 1]);
            assert(rest[i + 1] == tokens[i + 2]);
        }
        if operator_token(tokens[0]) {
            assert(buf.len() > 0);
            assert(tokens.len() >= 2) by {
                assert(tokens.last() == tokens[tokens.len() - 1]);
            }
            assert(!operator_token(tokens[1]));
            assert(rest[0] == tokens[1]);
            assert(rest.last() == tokens.last());
            lemma_segments_rec(rest, env, Seq::empty());
        } else {
            if rest.len() > 0 {
                assert(rest.last() == tokens.last());
            }
            lemma_segments_rec(rest, env, buf.push(expand_token_spec(tokens[0], env)));
        }
    }
}

} // verus!
