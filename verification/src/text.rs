//! Character-level helpers: string equality, whitespace, and the
//! whitespace-delimited tokenizer that both the input parser and the alias
//! resolver split text with.

use vstd::prelude::*;
use vstd::string::*;

verus! {

/// Whether a character has the Unicode White_Space property.
pub uninterp spec fn unicode_whitespace(c: char) -> bool;

/// Relies on char::is_whitespace: true exactly on characters with the Unicode
/// White_Space property, a set that includes ' ', '\t', '\n' and '\r'.
pub assume_specification[ char::is_whitespace ](c: char) -> (r: bool)
    ensures
        r == unicode_whitespace(c),
        c == ' ' || c == '\t' || c == '\n' || c == '\r' ==> r,
;

/// Character-for-character string equality.
pub fn str_eq(a: &str, b: &str) -> (r: bool)
    ensures
        r == (a@ == b@),
{
    let n = a.unicode_len();
    if n != b.unicode_len() {
        return false;
    }
    let mut i: usize = 0;
    while i < n
        invariant
            i <= n,
            n == a@.len(),
            n == b@.len(),
            forall|j: int| 0 <= j < i ==> a@[j] == b@[j],
        decreases n - i,
    {
        if a.get_char(i) != b.get_char(i) {
            return false;
        }
        i = i + 1;
    }
    proof {
        assert(a@ =~= b@);
    }
    true
}

/// The tokens of `s`, in order: the maximal runs of non-whitespace
/// characters, accumulated left to right into the pending token `cur`.
pub open spec fn tokens_rec(s: Seq<char>, cur: Seq<char>) -> Seq<Seq<char>>
    decreases s.len(),
{
    if s.len() == 0 {
        if cur.len() == 0 {
            Seq::empty()
        } else {
            seq![cur]
        }
    } else if unicode_whitespace(s[0]) {
        if cur.len() == 0 {
            tokens_rec(s.drop_first(), Seq::empty())
        } else {
            seq![cur] + tokens_rec(s.drop_first(), Seq::empty())
        }
    } else {
        tokens_rec(s.drop_first(), cur.push(s[0]))
    }
}

/// The whitespace-delimited tokens of `s`, in input order.
pub open spec fn tokens_of(s: Seq<char>) -> Seq<Seq<char>> {
    tokens_rec(s, Seq::empty())
}

/// Splits `s` into its whitespace-delimited tokens.
pub fn tokenize(s: &str) -> (r: Vec<String>)
    ensures
        r.deep_view() == tokens_of(s@),
{
    let n = s.unicode_len();
    let mut r: Vec<String> = Vec::new();
    let mut start: Option<usize> = None;
    let mut i: usize = 0;
    proof {
        assert(s@.skip(0) =~= s@);
    }
    while i < n
        invariant
            i <= n,
            n == s@.len(),
            match start {
                Some(st) => st < i,
                None => true,
            },
            r.deep_view() + tokens_rec(
                s@.skip(i as int),
                match start {
                    Some(st) => s@.subrange(st as int, i as int),
                    None => Seq::<char>::empty(),
                },
            ) == tokens_of(s@),
        decreases n - i,
    {
        let ghost cur: Seq<char> = match start {
            Some(st) => s@.subrange(st as int, i as int),
            None => Seq::<char>::empty(),
        };
        proof {
            assert(s@.skip(i as int)[0] == s@[i as int]);
            assert(s@.skip(i as int).drop_first() =~= s@.skip(i as int + 1));
        }
        let c = s.get_char(i);
        if c.is_whitespace() {
            match start {
                Some(st) => {
                    let ghost rd = r.deep_view();
                    let tok = String::from_str(s.substring_char(st, i));
                    r.push(tok);
                    proof {
                        assert(r.deep_view() =~= rd.push(cur));
                        assert(rd.push(cur) + tokens_rec(s@.skip(i as int + 1), Seq::<char>::empty())
                            =~= rd + (seq![cur] + tokens_rec(
                            s@.skip(i as int + 1),
                            Seq::<char>::empty(),
                        )));
                    }
                    start = None;
                },
                None => {},
            }
        } else {
            match start {
                Some(st) => {
                    proof {
                        assert(s@.subrange(st as int, i as int + 1) =~= cur.push(s@[i as int]));
                    }
                },
                None => {
                    start = Some(i);
                    proof {
                        assert(s@.subrange(i as int, i as int + 1) =~= Seq::<char>::empty().push(
                            s@[i as int],
                        ));
                        assert(s@.subrange(i as int, i as int) =~= Seq::<char>::empty());
                    }
                },
            }
        }
        i = i + 1;
    }
    proof {
        assert(s@.skip(n as int) =~= Seq::<char>::empty());
    }
    match start {
        Some(st) => {
            let ghost rd = r.deep_view();
            let ghost cur: Seq<char> = s@.subrange(st as int, n as int);
            let tok = String::from_str(s.substring_char(st, n));
            r.push(tok);
            proof {
                assert(r.deep_view() =~= rd.push(cur));
                assert(rd.push(cur) =~= rd + seq![cur]);
            }
        },
        None => {
            proof {
                assert(r.deep_view() + Seq::<Seq<char>>::empty() =~= r.deep_view());
            }
        },
    }
    r
}

} // verus!
