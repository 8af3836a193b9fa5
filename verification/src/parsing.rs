//! The data model of a loaded course specification, the typed loading errors,
//! and the tokenization of a test's command string.
//!
//! Deserializing the specification file and reading it from disk are the
//! application's concern; the library receives the already structured values.

use vstd::prelude::*;
use vstd::string::StringExecFns;

verus! {

/// Error produced when a course specification cannot be loaded.
#[derive(Debug, Clone)]
pub enum ParsingError {
    /// The file at the given path could not be read; carries the path.
    FileOpenError(String),
    /// The contents did not match the expected course schema; carries the
    /// decoder's description of the mismatch.
    CourseFmtError(String),
}

impl ParsingError {
    /// The human-readable description of the error, naming the offending
    /// path for a file that could not be opened.
    pub open spec fn spec_message(self) -> Seq<char> {
        match self {
            ParsingError::FileOpenError(path) => "failed to open course file at "@ + path@,
            ParsingError::CourseFmtError(msg) => msg@,
        }
    }

    /// Renders the error for display.
    pub fn message(&self) -> (r: String)
        ensures
            r@ == self.spec_message(),
    {
        match self {
            ParsingError::FileOpenError(path) => {
                let mut s = "failed to open course file at ".to_owned();
                s.append(path.as_str());
                s
            },
            ParsingError::CourseFmtError(msg) => msg.clone(),
        }
    }
}

/// The outcome of running one test's command: the captured standard output
/// on success, the captured standard error (or a synthetic message when the
/// process could not be spawned) on failure.
#[derive(Debug, Clone)]
pub enum TestResult {
    Pass(String),
    Fail(String),
}

/// One test: a command to execute and how to present its outcome.
#[derive(Debug, Clone)]
pub struct JsonTest {
    pub name: String,
    pub optional: bool,
    pub cmd: String,
    pub message_on_fail: String,
    pub message_on_success: String,
}

/// A named, ordered group of tests, markable as optional as a whole.
#[derive(Debug, Clone)]
pub struct JsonTestSuite {
    pub name: String,
    pub optional: bool,
    pub tests: Vec<JsonTest>,
}

/// A full course: metadata, a schema version tag, and the ordered suites.
#[derive(Debug, Clone)]
pub struct JsonCourse {
    pub version: String,
    pub name: String,
    pub instructor: String,
    pub course_id: u64,
    pub suites: Vec<JsonTestSuite>,
}

/// The characters on which a command string is split into tokens: the
/// ASCII whitespace characters.
pub open spec fn is_cmd_whitespace(c: char) -> bool {
    c == ' ' || c == '\t' || c == '\n' || c == '\r' || c == '\u{c}'
}

/// The tokens of `s` when the characters of `cur` have already been read
/// as the beginning of a token.
pub open spec fn split_tokens_acc(s: Seq<char>, cur: Seq<char>) -> Seq<Seq<char>>
    decreases s.len(),
{
    if s.len() == 0 {
        if cur.len() == 0 {
            Seq::empty()
        } else {
            seq![cur]
        }
    } else if is_cmd_whitespace(s[0]) {
        if cur.len() == 0 {
            split_tokens_acc(s.drop_first(), Seq::empty())
        } else {
            seq![cur] + split_tokens_acc(s.drop_first(), Seq::empty())
        }
    } else {
        split_tokens_acc(s.drop_first(), cur.push(s[0]))
    }
}

/// The whitespace-separated tokens of a command string; the first is the
/// program to execute, the rest are its arguments.
pub open spec fn command_tokens(s: Seq<char>) -> Seq<Seq<char>> {
    split_tokens_acc(s, Seq::empty())
}

/// Decides whether `c` separates command tokens.
fn is_separator(c: char) -> (r: bool)
    ensures
        r == is_cmd_whitespace(c),
{
    c == ' ' || c == '\t' || c == '\n' || c == '\r' || c == '\u{c}'
}

/// Splits a command string into its whitespace-separated tokens.
pub fn split_command(cmd: &str) -> (tokens: Vec<String>)
    ensures
        tokens.deep_view() == command_tokens(cmd@),
{
    let n = cmd.unicode_len();
    let mut tokens: Vec<String> = Vec::new();
    let mut cur = String::new();
    let mut i: usize = 0;
    proof {
        assert(cmd@.skip(0) =~= cmd@);
        assert(tokens.deep_view() =~= Seq::<Seq<char>>::empty());
        assert(Seq::<Seq<char>>::empty() + split_tokens_acc(cmd@, Seq::<char>::empty())
            =~= split_tokens_acc(cmd@, Seq::<char>::empty()));
    }
    while i < n
        invariant
            i <= n,
            n == cmd@.len(),
            command_tokens(cmd@) == tokens.deep_view()
                + split_tokens_acc(cmd@.skip(i as int), cur@),
        decreases n - i,
    {
        proof {
            assert(cmd@.skip(i as int).drop_first() =~= cmd@.skip(i as int + 1));
            assert(cmd@.skip(i as int)[0] == cmd@[i as int]);
        }
        let ghost prev_tokens = tokens.deep_view();
        let ghost prev_cur = cur@;
        let c = cmd.get_char(i);
        if is_separator(c) {
            if !cur.as_str().is_empty() {
                tokens.push(cur);
                cur = String::new();
                proof {
                    assert(split_tokens_acc(cmd@.skip(i as int), prev_cur)
                        == seq![prev_cur]
                        + split_tokens_acc(cmd@.skip(i as int + 1), Seq::<char>::empty()));
                    assert(tokens.deep_view() =~= prev_tokens.push(prev_cur));
                    assert(prev_tokens + (seq![prev_cur]
                        + split_tokens_acc(cmd@.skip(i as int + 1), Seq::<char>::empty()))
                        =~= prev_tokens.push(prev_cur)
                        + split_tokens_acc(cmd@.skip(i as int + 1), Seq::<char>::empty()));
                    assert(command_tokens(cmd@) == tokens.deep_view()
                        + split_tokens_acc(cmd@.skip(i as int + 1), cur@));
                }
            } else {
                proof {
                    assert(prev_cur =~= Seq::<char>::empty());
                    assert(split_tokens_acc(cmd@.skip(i as int), prev_cur)
                        == split_tokens_acc(cmd@.skip(i as int + 1), Seq::<char>::empty()));
                    assert(command_tokens(cmd@) == tokens.deep_view()
                        + split_tokens_acc(cmd@.skip(i as int + 1), cur@));
                }
            }
        } else {
            cur.push(c);
            proof {
                assert(split_tokens_acc(cmd@.skip(i as int), prev_cur)
                    == split_tokens_acc(cmd@.skip(i as int + 1), prev_cur.push(cmd@[i as int])));
                assert(command_tokens(cmd@) == tokens.deep_view()
                    + split_tokens_acc(cmd@.skip(i as int + 1), cur@));
            }
        }
        i = i + 1;
    }
    proof {
        assert(cmd@.skip(n as int) =~= Seq::<char>::empty());
    }
    if !cur.as_str().is_empty() {
        let ghost prev_tokens = tokens.deep_view();
        let ghost prev_cur = cur@;
        tokens.push(cur);
        proof {
            assert(tokens.deep_view() =~= prev_tokens.push(prev_cur));
            assert(prev_tokens.push(prev_cur) =~= prev_tokens + seq![prev_cur]);
        }
    } else {
        proof {
            assert(tokens.deep_view() + Seq::<Seq<char>>::empty() =~= tokens.deep_view());
        }
    }
    tokens
}

impl JsonTest {
    /// The program and arguments to spawn for this test: the first
    /// whitespace token of `cmd` and the remaining tokens. `None` when the
    /// command string holds no token at all; such a test cannot be
    /// executed, which is a run-time failure of that one test.
    pub fn execution_plan(&self) -> (r: Option<(String, Vec<String>)>)
        ensures
            match r {
                Some(plan) => {
                    &&& command_tokens(self.cmd@).len() > 0
                    &&& plan.0@ == command_tokens(self.cmd@)[0]
                    &&& plan.1.deep_view() == command_tokens(self.cmd@).skip(1)
                },
                None => command_tokens(self.cmd@).len() == 0,
            },
    {
        let mut tokens = split_command(self.cmd.as_str());
        if tokens.len() == 0 {
            None
        } else {
            let ghost all = tokens.deep_view();
            let program = tokens.remove(0);
            proof {
                assert(tokens.deep_view() =~= all.skip(1));
            }
            Some((program, tokens))
        }
    }
}

} // verus!
