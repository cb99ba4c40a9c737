//! The compact script syntax.
//!
//! A script is read line by line: one `$ ` line with the command, any number
//! of `> ` lines that continue it, at most one `? ` line with the expected
//! status, and then the expected output, taken as it stands. The words of the
//! command are cut as a shell would cut them; leading words of the form
//! `NAME=VALUE` set the environment, the next word names the program, and the
//! rest are its arguments.

use crate::args::{shlex_words, split_words};
use crate::bin::{Bin, BinView};
use crate::env::{Env, EnvView};
use crate::file::{File, FileView};
use crate::fs::{Filesystem, FilesystemView};
use crate::run::{case_result, Run, RunView, TryCmd, TryCmdView};
use crate::status::{status_error, status_of, CommandStatus};
use crate::text::{
    find_char, line_end, line_len, slice_chars, split_once, starts_with_pair, to_chars,
    trim_bounds, trimmed, views,
};
use vstd::prelude::*;
use vstd::string::StringExecFns;

verus! {

/// Whether `s` starts with the marker `m` and a space.
pub open spec fn marked(s: Seq<char>, m: char) -> bool {
    seq![m, ' '].is_prefix_of(s)
}

/// The words of one marked line: what follows the marker, trimmed, cut into words.
pub open spec fn line_words(line: Seq<char>) -> Seq<Seq<char>> {
    shlex_words(trimmed(line.skip(2)))
}

/// The words of the `> ` lines at the front of `s`, and what follows those lines.
pub open spec fn continuation(s: Seq<char>) -> (Seq<Seq<char>>, Seq<char>)
    decreases s.len(),
    via continuation_decreases
{
    if marked(s, '>') {
        let n = line_len(s);
        let (words, rest) = continuation(s.skip(n));
        (line_words(s.take(n)) + words, rest)
    } else {
        (Seq::empty(), s)
    }
}

#[via_fn]
proof fn continuation_decreases(s: Seq<char>) {
    if marked(s, '>') {
        lemma_line_len(s);
    }
}

/// A line of a text that is not empty has at least one character and ends
/// within the text.
pub proof fn lemma_line_len(s: Seq<char>)
    requires
        s.len() > 0,
    ensures
        0 < line_len(s) <= s.len(),
{
    s.index_of_first_ensures('\n');
}

/// A marked line holds its marker and the space behind it.
pub proof fn lemma_marked_line(s: Seq<char>, m: char)
    requires
        marked(s, m),
        m != '\n',
    ensures
        2 <= line_len(s) <= s.len(),
{
    s.index_of_first_ensures('\n');
    let p = seq![m, ' '];
    assert(s.subrange(0, 2)[0] == p[0]);
    assert(s.subrange(0, 2)[1] == p[1]);
}

/// The parts of a script: the words of its command, the word of its status
/// line if it has one, and the expected output.
pub struct Parts {
    pub words: Seq<Seq<char>>,
    pub status: Option<Seq<char>>,
    pub stdout: Seq<char>,
}

/// What is reported for a script that does not start with a `$ ` line.
pub open spec fn not_a_command(line: Seq<char>) -> Seq<char> {
    "Expected `$` line, got `"@ + line + "`"@
}

/// The status line at the front of `rest`, if there is one, and the output behind it.
pub open spec fn tail_parts(words: Seq<Seq<char>>, rest: Seq<char>) -> Parts {
    if marked(rest, '?') {
        let m = line_len(rest);
        Parts { words, status: Some(trimmed(rest.take(m).skip(2))), stdout: rest.skip(m) }
    } else {
        Parts { words, status: None, stdout: rest }
    }
}

/// The parts of the script `s`. An empty script has no parts at all.
pub open spec fn parts(s: Seq<char>) -> Result<Parts, Seq<char>> {
    if s.len() == 0 {
        Ok(Parts { words: Seq::empty(), status: None, stdout: Seq::empty() })
    } else if !marked(s, '$') {
        Err(not_a_command(s.take(line_len(s))))
    } else {
        let n = line_len(s);
        let (more, rest) = continuation(s.skip(n));
        Ok(tail_parts(line_words(s.take(n)) + more, rest))
    }
}

/// The settings that the leading `NAME=VALUE` words of `words` add to `acc`,
/// a later one in place of an earlier one for the same name, and the words
/// from the first that is no setting.
pub open spec fn settings(words: Seq<Seq<char>>, acc: Map<Seq<char>, Seq<char>>) -> (
    Map<Seq<char>, Seq<char>>,
    Seq<Seq<char>>,
)
    decreases words.len(),
{
    if words.len() == 0 {
        (acc, words)
    } else {
        match split_once(words[0], '=') {
            Some((name, value)) => settings(words.drop_first(), acc.insert(name, value)),
            None => (acc, words),
        }
    }
}

/// The test case for the words of a command, an expected status and the
/// expected output: both output streams are captured as one.
pub open spec fn assembled(words: Seq<Seq<char>>, status: CommandStatus, stdout: Seq<char>)
    -> Result<TryCmdView, Seq<char>> {
    let (add, rest) = settings(words, Map::empty());
    if rest.len() == 0 {
        Err("No bin specified"@)
    } else {
        Ok(
            TryCmdView {
                run: RunView {
                    bin: Some(BinView::Name(rest[0])),
                    args: rest.drop_first(),
                    env: EnvView { inherit: None, add, remove: Seq::empty() },
                    status: Some(status),
                    stderr_to_stdout: true,
                    expected_stdout: Some(FileView::Text(stdout)),
                    ..RunView::empty()
                },
                fs: FilesystemView::empty(),
            },
        )
    }
}

/// The test case that the script `s` describes, or what is reported for it.
/// A status line that names no status is reported before a missing program.
pub open spec fn parsed(s: Seq<char>) -> Result<TryCmdView, Seq<char>> {
    match parts(s) {
        Err(e) => Err(e),
        Ok(p) => match p.status {
            Some(word) => match status_of(word) {
                Some(status) => assembled(p.words, status, p.stdout),
                None => Err(status_error(word)),
            },
            None => assembled(p.words, CommandStatus::Success, p.stdout),
        },
    }
}

proof fn lemma_views_add(a: Seq<String>, b: Seq<String>)
    ensures
        views(a + b) == views(a) + views(b),
{
    assert(views(a + b) =~= views(a) + views(b));
}

/// The words of the marked line `cs[from..end]`.
fn words_of_line(s: &str, cs: &Vec<char>, from: usize, end: usize) -> (words: Vec<String>)
    requires
        cs@ == s@,
        from + 2 <= end <= cs.len(),
    ensures
        views(words@) == line_words(cs@.subrange(from as int, end as int)),
{
    let (a, b) = trim_bounds(cs, from + 2, end);
    assert(cs@.subrange(from as int, end as int).skip(2) =~= cs@.subrange(from + 2, end as int));
    let raw = slice_chars(s, a, b);
    split_words(raw.as_str())
}

impl TryCmd {
    /// The test case for the words of a command, an expected status and the
    /// expected output.
    pub fn from_words(words: Vec<String>, status: CommandStatus, stdout: String) -> (r: Result<
        TryCmd,
        String,
    >)
        ensures
            case_result(r) == assembled(views(words@), status, stdout@),
    {
        let mut words = words;
        let ghost all = views(words@);
        let mut env = Env::default();
        let n: usize = words.len();
        let mut i: usize = 0;
        assert(all.skip(0) =~= all);
        loop
            invariant_except_break
                i <= n,
                n == words.len(),
                all == views(words@),
                env.inherit is None,
                views(env.remove@) == Seq::<Seq<char>>::empty(),
                settings(all, Map::empty()) == settings(all.skip(i as int), env.add@),
            ensures
                i <= n,
                n == words.len(),
                all == views(words@),
                env.inherit is None,
                views(env.remove@) == Seq::<Seq<char>>::empty(),
                settings(all, Map::empty()) == (env.add@, all.skip(i as int)),
            decreases n - i,
        {
            if i >= n {
                break;
            }
            let word = words[i].as_str();
            let chars = to_chars(word);
            proof {
                assert(all.skip(i as int)[0] == chars@);
                assert(all.skip(i as int).drop_first() =~= all.skip(i + 1));
            }
            match find_char(&chars, '=') {
                Some(at) => {
                    let name = slice_chars(word, 0, at);
                    let value = slice_chars(word, at + 1, chars.len());
                    assert(name@ =~= chars@.take(at as int));
                    assert(value@ =~= chars@.skip(at + 1));
                    env.add.insert(name, value);
                },
                None => {
                    break;
                },
            }
            i += 1;
        }
        if i >= n {
            return Err(String::from_str("No bin specified"));
        }
        let mut rest = words.split_off(i);
        let bin = rest.remove(0);
        proof {
            let tail = all.skip(i as int);
            assert(tail[0] == bin@);
            assert(views(rest@) =~= tail.drop_first());
        }
        let case = TryCmd {
            run: Run {
                bin: Some(Bin::Name(bin)),
                args: rest,
                env,
                stdin: None,
                stderr_to_stdout: true,
                status: Some(status),
                expected_stdout: Some(File::Text(stdout)),
                expected_stderr: None,
                binary: false,
                timeout: None,
            },
            fs: Filesystem::default(),
        };
        Ok(case)
    }

    /// Reads a test case from a script.
    pub fn parse_trycmd(s: &str) -> (r: Result<TryCmd, String>)
        ensures
            case_result(r) == parsed(s@),
    {
        let cs = to_chars(s);
        let len: usize = cs.len();
        let mut words: Vec<String> = Vec::new();
        let mut status = CommandStatus::Success;
        let mut pos: usize = 0;
        if len > 0 {
            assert(cs@.skip(0) =~= cs@);
            let end = line_end(&cs, 0);
            assert(cs@.take(end as int) =~= cs@.subrange(0, end as int));
            if !starts_with_pair(&cs, 0, '$', ' ') {
                let line = slice_chars(s, 0, end);
                return Err(String::from_str("Expected `$` line, got `").concat(line.as_str()).concat("`"));
            }
            proof {
                lemma_marked_line(cs@.skip(0), '$');
            }
            words = words_of_line(s, &cs, 0, end);
            pos = end;
            let ghost first = views(words@);
            let ghost start = pos;
            proof {
                assert(first =~= first + Seq::<Seq<char>>::empty());
            }
            loop
                invariant_except_break
                    cs@ == s@,
                    len == cs.len(),
                    start <= pos <= len,
                    first + continuation(cs@.skip(start as int)).0 == views(words@) + continuation(
                        cs@.skip(pos as int),
                    ).0,
                    continuation(cs@.skip(start as int)).1 == continuation(cs@.skip(pos as int)).1,
                ensures
                    cs@ == s@,
                    len == cs.len(),
                    start <= pos <= len,
                    first + continuation(cs@.skip(start as int)).0 == views(words@),
                    continuation(cs@.skip(start as int)).1 == cs@.skip(pos as int),
                decreases len - pos,
            {
                if !starts_with_pair(&cs, pos, '>', ' ') {
                    proof {
                        assert(views(words@) + Seq::<Seq<char>>::empty() =~= views(words@));
                    }
                    break;
                }
                let end = line_end(&cs, pos);
                let ghost here = cs@.skip(pos as int);
                proof {
                    lemma_marked_line(here, '>');
                    assert(here.skip(end - pos) =~= cs@.skip(end as int));
                    assert(here.take(end - pos) =~= cs@.subrange(pos as int, end as int));
                }
                let ghost before = words@;
                let mut more = words_of_line(s, &cs, pos, end);
                proof {
                    lemma_views_add(before, more@);
                    let w = line_words(here.take(end - pos));
                    let c = continuation(cs@.skip(end as int)).0;
                    assert(views(before) + (w + c) =~= (views(before) + w) + c);
                }
                words.append(&mut more);
                pos = end;
            }
            if starts_with_pair(&cs, pos, '?', ' ') {
                let end = line_end(&cs, pos);
                let ghost here = cs@.skip(pos as int);
                proof {
                    lemma_marked_line(here, '?');
                }
                let (a, b) = trim_bounds(&cs, pos + 2, end);
                proof {
                    assert(here.skip(end - pos) =~= cs@.skip(end as int));
                    assert(here.take(end - pos).skip(2) =~= cs@.subrange(pos + 2, end as int));
                }
                let word = slice_chars(s, a, b);
                match CommandStatus::from_str(word.as_str()) {
                    Ok(found) => {
                        status = found;
                    },
                    Err(e) => {
                        return Err(e);
                    },
                }
                pos = end;
            }
        } else {
            assert(views(words@) =~= Seq::<Seq<char>>::empty());
        }
        let stdout = slice_chars(s, pos, len);
        assert(stdout@ =~= cs@.skip(pos as int));
        TryCmd::from_words(words, status, stdout)
    }

    /// Reads a test case from a script.
    pub fn from_str(s: &str) -> (r: Result<TryCmd, String>)
        ensures
            case_result(r) == parsed(s@),
    {
        TryCmd::parse_trycmd(s)
    }
}

impl std::str::FromStr for TryCmd {
    type Err = String;

    /// Reads a test case from a script: the case that the script describes,
    /// or what is reported for it.
    fn from_str(s: &str) -> (r: Result<Self, String>)
        ensures
            case_result(r) == parsed(s@),
    {
        TryCmd::parse_trycmd(s)
    }
}

/// Every test case that a script describes captures both output streams as
/// one, names its program without resolving it, expects a status and an
/// output, and leaves the filesystem context, the input and the removals unset.
pub proof fn script_case_shape(s: Seq<char>)
    ensures
        parsed(s) matches Ok(case) ==> {
            &&& case.run.stderr_to_stdout
            &&& case.run.bin is Some && case.run.bin->Some_0 is Name
            &&& case.run.status is Some
            &&& case.run.expected_stdout is Some && case.run.expected_stdout->Some_0 is Text
            &&& case.run.expected_stderr is None
            &&& case.run.stdin is None
            &&& case.run.env.inherit is None
            &&& case.run.env.remove.len() == 0
            &&& case.fs == FilesystemView::empty()
        },
{
}

/// A script without a status line expects success.
pub proof fn script_status_defaults_to_success(s: Seq<char>)
    requires
        parts(s) matches Ok(p) && p.status is None,
    ensures
        parsed(s) matches Ok(case) ==> case.run.status == Some(CommandStatus::Success),
{
}

/// The expected output is the end of the script, as it stands.
pub proof fn script_output_is_verbatim(s: Seq<char>)
    ensures
        parts(s) matches Ok(p) ==> p.stdout.len() <= s.len() && p.stdout == s.skip(
            s.len() - p.stdout.len(),
        ),
{
    if s.len() > 0 && marked(s, '$') {
        lemma_marked_line(s, '$');
        let n = line_len(s);
        let mid = s.skip(n);
        lemma_continuation_rest(mid);
        let rest = continuation(mid).1;
        assert(rest == s.skip(s.len() - rest.len())) by {
            assert(mid.skip(mid.len() - rest.len()) =~= s.skip(s.len() - rest.len()));
        }
        if marked(rest, '?') {
            lemma_marked_line(rest, '?');
            let m = line_len(rest);
            assert(rest.skip(m) =~= s.skip(s.len() - rest.skip(m).len()));
        }
    } else if s.len() == 0 {
        assert(s.skip(0) =~= Seq::<char>::empty());
    }
}

/// What follows the continuation lines is the end of the text.
pub proof fn lemma_continuation_rest(s: Seq<char>)
    ensures
        continuation(s).1.len() <= s.len(),
        continuation(s).1 == s.skip(s.len() - continuation(s).1.len()),
    decreases s.len(),
{
    if marked(s, '>') {
        lemma_marked_line(s, '>');
        let n = line_len(s);
        lemma_continuation_rest(s.skip(n));
        let rest = continuation(s.skip(n)).1;
        assert(s.skip(n).skip(s.skip(n).len() - rest.len()) =~= s.skip(s.len() - rest.len()));
    } else {
        assert(s.skip(0) =~= s);
    }
}

} // verus!
