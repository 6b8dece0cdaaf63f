//! Parsing a raw command line into an executable root and arguments.
//!
//! A command string is split on runs of whitespace; the first token is
//! the program to run, the remaining tokens are its arguments, kept in
//! order and passed verbatim (no shell interpretation of any kind).

use vstd::prelude::*;

verus! {

/// The two fatal errors of the tool: the command string held no tokens,
/// or the bounded retry budget ran out without a successful attempt.
#[derive(Debug, Clone, Copy, PartialEq, Eq, Structural)]
pub enum RetryErrors {
    ReachedRetryLimit,
    InvalidCommand,
}

impl RetryErrors {
    /// A human-readable description of the error.
    pub fn message(&self) -> (s: &'static str)
        ensures
            *self is ReachedRetryLimit ==> s@ == "Maximum retry attempts reached; operation aborted."@,
            *self is InvalidCommand ==> s@ == "Invalid command provided."@,
    {
        match self {
            RetryErrors::ReachedRetryLimit => "Maximum retry attempts reached; operation aborted.",
            RetryErrors::InvalidCommand => "Invalid command provided.",
        }
    }
}

/// True of the characters that separate tokens: the Unicode
/// white-space characters.
pub open spec fn is_space_char(c: char) -> bool {
    c == ' ' || c == '\t' || c == '\n' || c == '\u{b}' || c == '\u{c}' || c == '\r'
        || c == '\u{85}' || c == '\u{a0}' || c == '\u{1680}'
        || ('\u{2000}' <= c && c <= '\u{200a}')
        || c == '\u{2028}' || c == '\u{2029}' || c == '\u{202f}' || c == '\u{205f}'
        || c == '\u{3000}'
}

/// Executable test for `is_space_char`.
fn is_space(c: char) -> (r: bool)
    ensures
        r == is_space_char(c),
{
    c == ' ' || c == '\t' || c == '\n' || c == '\u{b}' || c == '\u{c}' || c == '\r'
        || c == '\u{85}' || c == '\u{a0}' || c == '\u{1680}'
        || ('\u{2000}' <= c && c <= '\u{200a}')
        || c == '\u{2028}' || c == '\u{2029}' || c == '\u{202f}' || c == '\u{205f}'
        || c == '\u{3000}'
}

/// One left-to-right pass of the splitter over `s`, starting at
/// position `i`, with `cur` the token read so far and `acc` the tokens
/// already complete.
pub open spec fn scan(s: Seq<char>, i: int, cur: Seq<char>, acc: Seq<Seq<char>>) -> Seq<Seq<char>>
    decreases s.len() - i,
{
    if i < 0 || i >= s.len() {
        if cur.len() == 0 {
            acc
        } else {
            acc.push(cur)
        }
    } else if is_space_char(s[i]) {
        if cur.len() == 0 {
            scan(s, i + 1, Seq::empty(), acc)
        } else {
            scan(s, i + 1, Seq::empty(), acc.push(cur))
        }
    } else {
        scan(s, i + 1, cur.push(s[i]), acc)
    }
}

/// The whitespace-delimited tokens of `s`, in order, each one a
/// verbatim run of non-whitespace characters of `s`.
pub open spec fn tokens_of(s: Seq<char>) -> Seq<Seq<char>> {
    scan(s, 0, Seq::empty(), Seq::empty())
}

/// The views of a sequence of strings.
pub open spec fn views_of(ss: Seq<String>) -> Seq<Seq<char>> {
    ss.map_values(|s: String| s@)
}

/// True when `s` consists of whitespace alone (in particular when it is
/// empty).
pub open spec fn all_space(s: Seq<char>) -> bool {
    forall|i: int| 0 <= i < s.len() ==> is_space_char(s[i])
}

proof fn lemma_scan_tokens_nonempty(s: Seq<char>, i: int, cur: Seq<char>, acc: Seq<Seq<char>>)
    requires
        forall|k: int| 0 <= k < acc.len() ==> acc[k].len() > 0,
    ensures
        forall|k: int| 0 <= k < scan(s, i, cur, acc).len() ==> scan(s, i, cur, acc)[k].len() > 0,
    decreases s.len() - i,
{
    if i < 0 || i >= s.len() {
    } else if is_space_char(s[i]) {
        if cur.len() == 0 {
            lemma_scan_tokens_nonempty(s, i + 1, Seq::empty(), acc);
        } else {
            assert forall|k: int| 0 <= k < acc.push(cur).len() implies acc.push(cur)[k].len()
                > 0 by {
                if k < acc.len() {
                } else {
                    assert(acc.push(cur)[k] == cur);
                }
            }
            lemma_scan_tokens_nonempty(s, i + 1, Seq::empty(), acc.push(cur));
        }
    } else {
        lemma_scan_tokens_nonempty(s, i + 1, cur.push(s[i]), acc);
    }
    assert forall|k: int| 0 <= k < scan(s, i, cur, acc).len() implies scan(s, i, cur, acc)[k].len()
        > 0 by {
        if i < 0 || i >= s.len() {
            if cur.len() == 0 {
                assert(scan(s, i, cur, acc)[k] == acc[k]);
            } else if k < acc.len() {
                assert(scan(s, i, cur, acc)[k] == acc[k]);
            } else {
                assert(scan(s, i, cur, acc)[k] == cur);
            }
        } else if is_space_char(s[i]) {
            if cur.len() == 0 {
                assert(scan(s, i, cur, acc)[k] == scan(s, i + 1, Seq::empty(), acc)[k]);
            } else {
                assert(scan(s, i, cur, acc)[k] == scan(s, i + 1, Seq::empty(), acc.push(cur))[k]);
            }
        } else {
            assert(scan(s, i, cur, acc)[k] == scan(s, i + 1, cur.push(s[i]), acc)[k]);
        }
    }
}

/// Every token the splitter produces is a non-empty string.
pub proof fn lemma_tokens_nonempty(s: Seq<char>)
    ensures
        forall|k: int| 0 <= k < tokens_of(s).len() ==> tokens_of(s)[k].len() > 0,
{
    lemma_scan_tokens_nonempty(s, 0, Seq::empty(), Seq::empty());
}

proof fn lemma_scan_empty(s: Seq<char>, i: int, cur: Seq<char>, acc: Seq<Seq<char>>)
    requires
        0 <= i <= s.len(),
    ensures
        scan(s, i, cur, acc).len() == 0 <==> (acc.len() == 0 && cur.len() == 0 && forall|j: int|
            i <= j < s.len() ==> is_space_char(s[j])),
    decreases s.len() - i,
{
    if i < s.len() {
        if is_space_char(s[i]) {
            if cur.len() == 0 {
                lemma_scan_empty(s, i + 1, Seq::empty(), acc);
            } else {
                lemma_scan_empty(s, i + 1, Seq::empty(), acc.push(cur));
            }
        } else {
            lemma_scan_empty(s, i + 1, cur.push(s[i]), acc);
        }
    }
}

/// A command string yields no tokens exactly when it is empty or all
/// whitespace.
pub proof fn lemma_no_tokens_iff_all_space(s: Seq<char>)
    ensures
        tokens_of(s).len() == 0 <==> all_space(s),
{
    lemma_scan_empty(s, 0, Seq::empty(), Seq::empty());
}

/// One invocation to attempt: the program to run and its arguments.
#[derive(Clone, Debug)]
pub struct Command {
    /// The executable name or path; never empty.
    pub root: String,
    /// The arguments, in order, each passed verbatim.
    pub args: Vec<String>,
}

impl Command {
    /// A well-formed command names a program.
    pub open spec fn wf(&self) -> bool {
        self.root@.len() > 0
    }

    /// Creates a `Command` struct from a command string.
    ///
    /// The string is split on runs of whitespace; the first token
    /// becomes the root, the remaining tokens the arguments, in their
    /// original order. A string with no tokens — empty or all
    /// whitespace — is rejected.
    pub fn from_string(command_str: &str) -> (r: Result<Self, RetryErrors>)
        ensures
            r is Err <==> tokens_of(command_str@).len() == 0,
            r matches Err(e) ==> e is InvalidCommand,
            r matches Ok(c) ==> {
                let toks = tokens_of(command_str@);
                &&& c.wf()
                &&& c.root@ == toks[0]
                &&& c.args@.len() == toks.len() - 1
                &&& forall|k: int| 0 <= k < c.args@.len() ==> c.args@[k]@ == toks[k + 1]
            },
    {
        let ghost s = command_str@;
        let n = command_str.unicode_len();
        let mut parts: Vec<String> = Vec::new();
        let mut start: usize = 0;
        let mut in_token = false;
        let mut i: usize = 0;
        proof {
            assert(views_of(parts@) =~= Seq::<Seq<char>>::empty());
        }
        while i < n
            invariant
                n == s.len(),
                s == command_str@,
                i <= n,
                in_token ==> start < i,
                scan(
                    s,
                    i as int,
                    if in_token {
                        s.subrange(start as int, i as int)
                    } else {
                        Seq::empty()
                    },
                    views_of(parts@),
                ) == tokens_of(s),
            decreases n - i,
        {
            let ghost cur: Seq<char> = if in_token {
                s.subrange(start as int, i as int)
            } else {
                Seq::empty()
            };
            let c = command_str.get_char(i);
            if is_space(c) {
                if in_token {
                    let tok = command_str.substring_char(start, i);
                    let owned = String::from_str(tok);
                    proof {
                        assert(views_of(parts@.push(owned)) =~= views_of(parts@).push(cur));
                    }
                    parts.push(owned);
                    in_token = false;
                }
            } else {
                if !in_token {
                    start = i;
                    in_token = true;
                    proof {
                        assert(s.subrange(i as int, i as int + 1) =~= cur.push(s[i as int]));
                    }
                } else {
                    proof {
                        assert(s.subrange(start as int, i as int + 1) =~= cur.push(s[i as int]));
                    }
                }
            }
            i = i + 1;
        }
        if in_token {
            let ghost cur: Seq<char> = s.subrange(start as int, n as int);
            let tok = command_str.substring_char(start, n);
            let owned = String::from_str(tok);
            proof {
                assert(views_of(parts@.push(owned)) =~= views_of(parts@).push(cur));
            }
            parts.push(owned);
        }
        assert(views_of(parts@) == tokens_of(s));
        if parts.len() == 0 {
            Err(RetryErrors::InvalidCommand)
        } else {
            proof {
                lemma_tokens_nonempty(s);
            }
            let ghost prev = parts@;
            let ghost toks = tokens_of(s);
            let root = parts.remove(0);
            proof {
                assert(root@ == views_of(prev)[0]);
                assert forall|k: int| 0 <= k < parts@.len() implies parts@[k]@ == toks[k + 1] by {
                    assert(parts@[k] == prev[k + 1]);
                    assert(views_of(prev)[k + 1] == prev[k + 1]@);
                }
            }
            Ok(Command { root, args: parts })
        }
    }
}

} // verus!
