//! Parsing of SMTP command lines and of the addresses in their arguments.

use vstd::prelude::*;
use vstd::string::*;
use crate::text::{
    chars_of, find_char, is_whitespace, lemma_position_of, lemma_trimmed_bounds,
    lemma_trimmed_is, position_of, string_of, to_ascii_uppercase, trim_bounds, trimmed,
    trims_to, uppercased,
};

verus! {

/// The command token of a line: the trimmed line up to its first space, in
/// upper case.
pub open spec fn command_token(line: Seq<char>) -> Seq<char> {
    let t = trimmed(line);
    uppercased(t.subrange(0, position_of(t, ' ')))
}

/// The argument of a line: what follows the first space of the trimmed line,
/// trimmed again; empty when the trimmed line holds no space.
pub open spec fn command_args(line: Seq<char>) -> Seq<char> {
    let t = trimmed(line);
    let p = position_of(t, ' ');
    if p < t.len() {
        trimmed(t.subrange(p + 1, t.len() as int))
    } else {
        Seq::empty()
    }
}

/// The address between the first `<` and the first `>` of an argument, when
/// both are there, in that order, with at least one character between them.
pub open spec fn address_in(args: Seq<char>) -> Option<Seq<char>> {
    let start = position_of(args, '<');
    let end = position_of(args, '>');
    if start < args.len() && end < args.len() && end > start + 1 {
        Some(args.subrange(start + 1, end))
    } else {
        None
    }
}

/// Splits an SMTP line into its command token, upper-cased, and its argument.
pub fn parse_command<'a>(line: &'a str) -> (r: (String, &'a str))
    ensures
        r.0@ == command_token(line@),
        r.1@ == command_args(line@),
{
    let v = chars_of(line);
    let (start, end) = trim_bounds(&v, 0, v.len());
    proof {
        assert(v@.subrange(0, v@.len() as int) =~= v@);
    }
    let ghost t = trimmed(line@);
    match find_char(&v, ' ', start, end) {
        Some(pos) => {
            let cmd = to_ascii_uppercase(&v, start, pos);
            let (from, to) = trim_bounds(&v, pos + 1, end);
            proof {
                assert(v@.subrange(start as int, pos as int) =~= t.subrange(0, pos - start));
                assert(v@.subrange(pos + 1, end as int) =~= t.subrange(
                    pos - start + 1,
                    t.len() as int,
                ));
            }
            (cmd, line.substring_char(from, to))
        },
        None => {
            let cmd = to_ascii_uppercase(&v, start, end);
            proof {
                assert(v@.subrange(start as int, end as int) =~= t.subrange(0, t.len() as int));
                assert(line@.subrange(end as int, end as int) =~= Seq::<char>::empty());
            }
            (cmd, line.substring_char(end, end))
        },
    }
}

/// Extracts the address from an argument such as `FROM:<addr>` or `TO:<addr>`.
pub fn extract_address(args: &str) -> (r: Option<String>)
    ensures
        match r {
            Some(a) => address_in(args@) == Some(a@),
            None => address_in(args@) is None,
        },
{
    let v = chars_of(args);
    proof {
        assert(v@.subrange(0, v@.len() as int) =~= v@);
    }
    let start = match find_char(&v, '<', 0, v.len()) {
        Some(i) => i,
        None => {
            return None;
        },
    };
    let end = match find_char(&v, '>', 0, v.len()) {
        Some(i) => i,
        None => {
            return None;
        },
    };
    if end > start + 1 {
        Some(string_of(&v, start + 1, end))
    } else {
        None
    }
}

/// A line made of a token, a space and a rest parses into the token in upper
/// case and the rest, trimmed. The token holds at least one character and no
/// whitespace.
pub proof fn lemma_parse_token_and_rest(token: Seq<char>, rest: Seq<char>)
    requires
        token.len() > 0,
        forall|i: int| 0 <= i < token.len() ==> !is_whitespace(token[i]),
    ensures
        command_token(token + seq![' '] + rest) == uppercased(token),
        command_args(token + seq![' '] + rest) == trimmed(rest),
{
    let s = token + seq![' '] + rest;
    let n = token.len() as int;
    let (a, b) = lemma_trimmed_bounds(rest);
    assert(is_whitespace(' '));
    if a == b {
        assert(trims_to(s, 0, n)) by {
            assert forall|j: int| n <= j < s.len() implies is_whitespace(s[j]) by {
                if j > n {
                    assert(s[j] == rest[j - n - 1]);
                }
            }
            assert(s[0] == token[0]);
            assert(s[n - 1] == token[n - 1]);
        }
        lemma_trimmed_is(s, 0, n);
        let t = trimmed(s);
        assert(t =~= token);
        lemma_position_of(t, ' ');
        assert(position_of(t, ' ') == n) by {
            let p = position_of(t, ' ');
            if p < n {
                assert(t[p] == ' ');
            }
        }
        assert(t.subrange(0, n) =~= token);
        assert(trimmed(rest) =~= Seq::<char>::empty());
    } else {
        let e = n + 1 + b;
        assert(trims_to(s, 0, e)) by {
            assert forall|j: int| e <= j < s.len() implies is_whitespace(s[j]) by {
                assert(s[j] == rest[j - n - 1]);
            }
            assert(s[0] == token[0]);
            assert(s[e - 1] == rest[b - 1]);
        }
        lemma_trimmed_is(s, 0, e);
        let t = trimmed(s);
        lemma_position_of(t, ' ');
        assert(t[n] == ' ');
        assert(position_of(t, ' ') == n) by {
            let p = position_of(t, ' ');
            if p < n {
                assert(t[p] == token[p]);
            }
        }
        assert(t.subrange(0, n) =~= token);
        let cut = rest.subrange(0, b);
        assert(t.subrange(n + 1, t.len() as int) =~= cut);
        assert(trims_to(cut, a, b)) by {
            assert forall|j: int| 0 <= j < a implies is_whitespace(cut[j]) by {
                assert(cut[j] == rest[j]);
            }
            assert(cut[a] == rest[a]);
            assert(cut[b - 1] == rest[b - 1]);
        }
        lemma_trimmed_is(cut, a, b);
        assert(cut.subrange(a, b) =~= rest.subrange(a, b));
    }
}

/// A line without a space parses into the trimmed line in upper case and an
/// empty argument.
pub proof fn lemma_parse_without_space(line: Seq<char>)
    requires
        !line.contains(' '),
    ensures
        command_token(line) == uppercased(trimmed(line)),
        command_args(line) == Seq::<char>::empty(),
{
    let t = trimmed(line);
    let (a, b) = lemma_trimmed_bounds(line);
    lemma_position_of(t, ' ');
    let p = position_of(t, ' ');
    if p < t.len() {
        assert(t[p] == line[a + p]);
        assert(line.contains(' '));
    }
    assert(t.subrange(0, t.len() as int) =~= t);
}

} // verus!
