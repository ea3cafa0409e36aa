//! Token expansion: tilde expansion against the home directory, then
//! environment-variable expansion of `$NAME` runs, left to right, without
//! re-scanning substituted text.

use vstd::prelude::*;
use vstd::string::*;
use crate::bindings::Bindings;

verus! {

/// A character that may stand in a variable name: ASCII alphanumeric or '_'.
pub open spec fn is_name_char(c: char) -> bool {
    ||| 'a' <= c && c <= 'z'
    ||| 'A' <= c && c <= 'Z'
    ||| '0' <= c && c <= '9'
    ||| c == '_'
}

/// The length of the longest prefix of `s` made of name characters.
pub open spec fn name_run_len(s: Seq<char>) -> nat
    decreases s.len(),
{
    if s.len() > 0 && is_name_char(s[0]) {
        1 + name_run_len(s.drop_first())
    } else {
        0
    }
}

pub proof fn lemma_name_run_len_bound(s: Seq<char>)
    ensures
        name_run_len(s) <= s.len(),
    decreases s.len(),
{
    if s.len() > 0 && is_name_char(s[0]) {
        lemma_name_run_len_bound(s.drop_first());
    }
}

/// If the first `k` characters of `s` are name characters and the next one,
/// if any, is not, then the name run is exactly `k` long.
proof fn lemma_name_run_len_exact(s: Seq<char>, k: int)
    requires
        0 <= k <= s.len(),
        forall|m: int| 0 <= m < k ==> is_name_char(#[trigger] s[m]),
        k == s.len() || !is_name_char(s[k]),
    ensures
        name_run_len(s) == k,
    decreases k,
{
    if k == 0 {
    } else {
        assert(is_name_char(s[0]));
        lemma_name_run_len_exact(s.drop_first(), k - 1);
    }
}

/// Tilde expansion: a token that is exactly `~` becomes the home directory;
/// one beginning `~/` has the `~` replaced by it; without a home binding the
/// token stands as it is.
pub open spec fn expand_tilde_spec(t: Seq<char>, env: Map<Seq<char>, Seq<char>>) -> Seq<char> {
    if t == "~"@ {
        if env.contains_key("HOME"@) {
            env["HOME"@]
        } else {
            t
        }
    } else if t.len() >= 2 && t[0] == '~' && t[1] == '/' {
        if env.contains_key("HOME"@) {
            env["HOME"@] + t.drop_first()
        } else {
            t
        }
    } else {
        t
    }
}

/// Environment-variable expansion: each `$NAME` run, `NAME` a maximal
/// non-empty run of name characters, becomes the variable's value when the
/// environment binds it, and stands literally when it does not. Substituted
/// text is not scanned again. A `$` followed by no name character stands as
/// it is.
pub open spec fn expand_vars_spec(s: Seq<char>, env: Map<Seq<char>, Seq<char>>) -> Seq<char>
    decreases s.len()
    via expand_vars_spec_decreases
{
    if s.len() == 0 {
        Seq::empty()
    } else if s[0] == '$' {
        let n = name_run_len(s.drop_first()) as int;
        if n == 0 {
            "$"@ + expand_vars_spec(s.drop_first(), env)
        } else {
            let name = s.subrange(1, 1 + n);
            if env.contains_key(name) {
                env[name] + expand_vars_spec(s.skip(1 + n), env)
            } else {
                s.subrange(0, 1 + n) + expand_vars_spec(s.skip(1 + n), env)
            }
        }
    } else {
        s.subrange(0, 1) + expand_vars_spec(s.drop_first(), env)
    }
}

#[via_fn]
proof fn expand_vars_spec_decreases(s: Seq<char>, env: Map<Seq<char>, Seq<char>>) {
    if s.len() > 0 && s[0] == '$' {
        lemma_name_run_len_bound(s.drop_first());
    }
}

/// A token's full expansion: tilde expansion first, then variable expansion
/// over its result.
pub open spec fn expand_token_spec(t: Seq<char>, env: Map<Seq<char>, Seq<char>>) -> Seq<char> {
    expand_vars_spec(expand_tilde_spec(t, env), env)
}

pub(crate) fn is_name_char_exec(c: char) -> (r: bool)
    ensures
        r == is_name_char(c),
{
    ('a' <= c && c <= 'z') || ('A' <= c && c <= 'Z') || ('0' <= c && c <= '9') || c == '_'
}

pub(crate) fn expand_tilde(token: &str, env: &Bindings) -> (r: String)
    ensures
        r@ == expand_tilde_spec(token@, env@),
{
    let n = token.unicode_len();
    let home_key = String::from_str("HOME");
    if n == 1 && token.get_char(0) == '~' {
        proof {
            reveal_strlit("~");
            assert(token@ =~= "~"@);
        }
        match env.get(&home_key) {
            Some(h) => h.clone(),
            None => String::from_str(token),
        }
    } else if n >= 2 && token.get_char(0) == '~' && token.get_char(1) == '/' {
        proof {
            reveal_strlit("~");
            assert(token@ != "~"@);
        }
        match env.get(&home_key) {
            Some(h) => {
                let r = h.clone().concat(token.substring_char(1, n));
                proof {
                    assert(token@.subrange(1, n as int) =~= token@.drop_first());
                }
                r
            },
            None => String::from_str(token),
        }
    } else {
        proof {
            reveal_strlit("~");
            if token@ == "~"@ {
                assert(token@.len() == 1 && token@[0] == '~');
                assert(false);
            }
        }
        String::from_str(token)
    }
}

pub(crate) fn expand_vars(token: &str, env: &Bindings) -> (r: String)
    ensures
        r@ == expand_vars_spec(token@, env@),
{
    let n = token.unicode_len();
    let mut out = String::new();
    let mut i: usize = 0;
    proof {
        assert(token@.skip(0) =~= token@);
    }
    while i < n
        invariant
            i <= n,
            n == token@.len(),
            out@ + expand_vars_spec(token@.skip(i as int), env@) == expand_vars_spec(
                token@,
                env@,
            ),
        decreases n - i,
    {
        let ghost rest = token@.skip(i as int);
        let ghost out0 = out@;
        proof {
            assert(rest[0] == token@[i as int]);
            assert(rest.drop_first() =~= token@.skip(i as int + 1));
        }
        let c = token.get_char(i);
        if c == '$' {
            let mut j = i + 1;
            while j < n && is_name_char_exec(token.get_char(j))
                invariant
                    i + 1 <= j <= n,
                    n == token@.len(),
                    forall|m: int| i + 1 <= m < j ==> is_name_char(#[trigger] token@[m]),
                decreases n - j,
            {
                j = j + 1;
            }
            proof {
                assert forall|m: int| 0 <= m < j - (i + 1) implies is_name_char(
                    #[trigger] rest.drop_first()[m],
                ) by {
                    assert(rest.drop_first()[m] == token@[i + 1 + m]);
                }
                if j < n {
                    assert(rest.drop_first()[j - (i + 1)] == token@[j as int]);
                }
                lemma_name_run_len_exact(rest.drop_first(), j - (i + 1));
            }
            if j == i + 1 {
                out.append("$");
                proof {
                    assert(out@ =~= out0 + "$"@);
                    assert(out0 + ("$"@ + expand_vars_spec(token@.skip(i as int + 1), env@))
                        =~= out@ + expand_vars_spec(token@.skip(i as int + 1), env@));
                }
                i = i + 1;
            } else {
                let name = String::from_str(token.substring_char(i + 1, j));
                proof {
                    assert(name@ =~= rest.subrange(1, 1 + (j - (i + 1))));
                    assert(rest.skip(1 + (j - (i + 1))) =~= token@.skip(j as int));
                }
                match env.get(&name) {
                    Some(v) => {
                        out.append(v.as_str());
                        proof {
                            assert(out@ =~= out0 + env@[name@]);
                            assert(out0 + (env@[name@] + expand_vars_spec(
                                token@.skip(j as int),
                                env@,
                            )) =~= out@ + expand_vars_spec(token@.skip(j as int), env@));
                        }
                    },
                    None => {
                        out.append(token.substring_char(i, j));
                        proof {
                            assert(rest.subrange(0, 1 + (j - (i + 1))) =~= token@.subrange(
                                i as int,
                                j as int,
                            ));
                            assert(out@ =~= out0 + token@.subrange(i as int, j as int));
                            assert(out0 + (token@.subrange(i as int, j as int)
                                + expand_vars_spec(token@.skip(j as int), env@)) =~= out@
                                + expand_vars_spec(token@.skip(j as int), env@));
                        }
                    },
                }
                i = j;
            }
        } else {
            out.append(token.substring_char(i, i + 1));
            proof {
                assert(rest.subrange(0, 1) =~= token@.subrange(i as int, i as int + 1));
                assert(out@ =~= out0 + rest.subrange(0, 1));
                assert(out0 + (rest.subrange(0, 1) + expand_vars_spec(
                    token@.skip(i as int + 1),
                    env@,
                )) =~= out@ + expand_vars_spec(token@.skip(i as int + 1), env@));
            }
            i = i + 1;
        }
    }
    proof {
        assert(token@.skip(n as int) =~= Seq::<char>::empty());
        assert(out@ + Seq::<char>::empty() =~= out@);
    }
    out
}

/// Expands one token: tilde expansion, then environment-variable expansion.
pub fn expand(token: &str, env: &Bindings) -> (r: String)
    ensures
        r@ == expand_token_spec(token@, env@),
{
    let t = expand_tilde(token, env);
    expand_vars(t.as_str(), env)
}

} // verus!
