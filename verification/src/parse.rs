//! Task descriptor parsing: a shell-style command line for the
//! subprocess byte source, and a `bucket/key` object path for the
//! remote-object byte source. A record that parses to no task is a
//! malformed record; the run aborts before launching anything for it.

use vstd::prelude::*;

verus! {

/// One unit of work for the subprocess byte source: the program to run
/// and its arguments.
pub struct CommandTask {
    /// The program name, the first word of the record.
    pub program: String,
    /// The remaining words, in order.
    pub args: Vec<String>,
}

/// The words that shell-style lexing yields for a line, or `None` when
/// the line is erroneous. Named, not spelled out: the lexing rules live
/// in the outside lexer.
pub uninterp spec fn shell_words_of(line: Seq<char>) -> Option<Seq<Seq<char>>>;

/// Relies on shlex::split: lexes a POSIX-shell-style command line into
/// words. The result depends on the input characters alone, and is
/// `None` exactly on erroneous input (an unclosed quote, a trailing
/// backslash).
#[verifier::external_body]
fn shell_split(line: &str) -> (r: Option<Vec<String>>)
    ensures
        match r {
            Some(words) => shell_words_of(line@) == Some(words.deep_view()),
            None => shell_words_of(line@) is None,
        },
{
    shlex::split(line)
}

/// Builds the task from lexed words: the first word names the program,
/// the rest are its arguments in order; an empty line makes no task.
pub fn command_from_words(words: Vec<String>) -> (r: Option<CommandTask>)
    ensures
        r is None <==> words.deep_view().len() == 0,
        r matches Some(t) ==> words.deep_view().len() >= 1 && t.program@ == words.deep_view()[0]
            && t.args.deep_view() == words.deep_view().subrange(
            1,
            words.deep_view().len() as int,
        ),
{
    let mut ws = words;
    if ws.len() == 0 {
        return None;
    }
    let ghost w0 = ws.deep_view();
    let ghost v0 = ws@;
    let program = ws.remove(0);
    proof {
        assert(ws@ =~= v0.subrange(1, v0.len() as int));
        assert(ws.deep_view() =~= w0.subrange(1, w0.len() as int));
    }
    Some(CommandTask { program, args: ws })
}

/// Parses one input record into a subprocess task: lex the line, then
/// take the first word as the program. `None` when the line cannot be
/// lexed or lexes to no words.
pub fn parse_command(line: &str) -> (r: Option<CommandTask>)
    ensures
        r is None <==> (shell_words_of(line@) is None || (shell_words_of(line@) matches Some(ws)
            && ws.len() == 0)),
        r matches Some(t) ==> (shell_words_of(line@) matches Some(ws) && ws.len() >= 1
            && t.program@ == ws[0] && t.args.deep_view() == ws.subrange(1, ws.len() as int)),
{
    match shell_split(line) {
        None => None,
        Some(words) => command_from_words(words),
    }
}

/// One unit of work for the remote-object byte source: bucket and key,
/// as the bytes of the record around its first slash.
pub struct ObjectPath {
    /// The bucket name: everything before the first slash.
    pub bucket: Vec<u8>,
    /// The object key: everything after the first slash.
    pub key: Vec<u8>,
}

/// Splits an input record at its first slash into bucket and key.
/// `None` exactly when the record holds no slash — a malformed record.
pub fn split_object_path(line: &Vec<u8>) -> (r: Option<ObjectPath>)
    ensures
        r is None <==> (forall|i: int| 0 <= i < line@.len() ==> line@[i] != 47u8),
        r matches Some(p) ==> {
            let b = p.bucket@.len() as int;
            &&& b < line@.len()
            &&& line@[b] == 47u8
            &&& (forall|i: int| 0 <= i < b ==> line@[i] != 47u8)
            &&& p.bucket@ == line@.subrange(0, b)
            &&& p.key@ == line@.subrange(b + 1, line@.len() as int)
        },
{
    let mut i: usize = 0;
    while i < line.len()
        invariant
            i <= line@.len(),
            forall|j: int| 0 <= j < i ==> line@[j] != 47u8,
        decreases line@.len() - i,
    {
        if line[i] == 47u8 {
            let bucket = crate::chunks::copy_range(line, 0, i);
            let key = crate::chunks::copy_range(line, i + 1, line.len());
            return Some(ObjectPath { bucket, key });
        }
        i += 1;
    }
    None
}

} // verus!
