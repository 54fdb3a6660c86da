use vstd::prelude::*;

use crate::errors::{UtilError, UtilErrorV};

verus! {

/// What splitting the command string into arguments yields: the argument
/// words in order, or nothing when the string cannot be parsed (an unclosed
/// quote, a trailing backslash, or an interior NUL).
pub uninterp spec fn shell_split(s: Seq<char>) -> Option<Seq<Seq<char>>>;

/// Relies on shlex::split: the result depends on the characters of the input
/// alone, and None is returned exactly when the input cannot be parsed.
#[verifier::external_body]
fn shell_split_str(s: &str) -> (r: Option<Vec<String>>)
    ensures
        (r is Some) == (shell_split(s@) is Some),
        r matches Some(v) ==> v.deep_view() == shell_split(s@)->Some_0,
{
    shlex::split(s)
}

/// Splits a shell-style command string into its argument words.
pub struct ArgParser;

impl ArgParser {
    /// The argument words of `cmdstr`, in order, or an error naming the
    /// string when it cannot be parsed.
    pub fn parse(cmdstr: &str) -> (r: Result<Vec<String>, UtilError>)
        ensures
            (r is Ok) == (shell_split(cmdstr@) is Some),
            r matches Ok(v) ==> v.deep_view() == shell_split(cmdstr@)->Some_0,
            r matches Err(e) ==> e@ == UtilErrorV::BadCommandString(cmdstr@),
    {
        match shell_split_str(cmdstr) {
            Some(argv) => Ok(argv),
            None => Err(UtilError::BadCommandString(String::from_str(cmdstr))),
        }
    }
}

/// Whether the byte sequence is valid UTF-8, and its characters when it is.
pub uninterp spec fn utf8_chars(bytes: Seq<u8>) -> Option<Seq<char>>;

/// The characters read from the byte sequence with every ill-formed UTF-8
/// run replaced by the replacement character.
pub uninterp spec fn utf8_chars_lossy(bytes: Seq<u8>) -> Seq<char>;

/// Relies on core::str::from_utf8, which succeeds exactly on valid UTF-8 and
/// decodes it; the text is then copied into an owned string.
#[verifier::external_body]
fn bytes_to_utf8(bytes: &[u8]) -> (r: Option<String>)
    ensures
        (r is Some) == (utf8_chars(bytes@) is Some),
        r matches Some(s) ==> s@ == utf8_chars(bytes@)->Some_0,
{
    match core::str::from_utf8(bytes) {
        Ok(s) => Some(s.to_owned()),
        Err(_) => None,
    }
}

/// Relies on String::from_utf8_lossy: the result depends on the bytes alone,
/// with ill-formed runs replaced; the text is then copied into an owned
/// string.
#[verifier::external_body]
fn bytes_to_utf8_lossy(bytes: &[u8]) -> (r: String)
    ensures
        r@ == utf8_chars_lossy(bytes@),
{
    String::from_utf8_lossy(bytes).into_owned()
}

/// Turns captured output bytes into text. With `lossy` the conversion always
/// succeeds, replacing ill-formed UTF-8; without it the bytes must be valid
/// UTF-8, standard output being checked before standard error.
pub fn decode_output(stdout: &[u8], stderr: &[u8], lossy: bool) -> (r: Result<
    (String, String),
    UtilError,
>)
    ensures
        lossy ==> (r matches Ok(p) && p.0@ == utf8_chars_lossy(stdout@) && p.1@
            == utf8_chars_lossy(stderr@)),
        !lossy ==> ((r is Ok) == (utf8_chars(stdout@) is Some && utf8_chars(stderr@) is Some)),
        !lossy ==> (r matches Ok(p) ==> p.0@ == utf8_chars(stdout@)->Some_0 && p.1@ == utf8_chars(
            stderr@,
        )->Some_0),
        !lossy && utf8_chars(stdout@) is None ==> (r matches Err(e) && e@
            == UtilErrorV::NonUtf8Stdout),
        !lossy && utf8_chars(stdout@) is Some && utf8_chars(stderr@) is None ==> (r matches Err(e)
            && e@ == UtilErrorV::NonUtf8Stderr),
{
    if lossy {
        Ok((bytes_to_utf8_lossy(stdout), bytes_to_utf8_lossy(stderr)))
    } else {
        let out = match bytes_to_utf8(stdout) {
            Some(s) => s,
            None => {
                return Err(UtilError::NonUtf8Stdout);
            },
        };
        let err = match bytes_to_utf8(stderr) {
            Some(s) => s,
            None => {
                return Err(UtilError::NonUtf8Stderr);
            },
        };
        Ok((out, err))
    }
}

/// The environment a command runs with, read from the override list: later
/// entries for the same key win, as each is written over the earlier one.
pub open spec fn env_map(s: Seq<(Seq<char>, Seq<char>)>) -> Map<Seq<char>, Seq<char>>
    decreases s.len(),
{
    if s.len() == 0 {
        Map::empty()
    } else {
        env_map(s.drop_last()).insert(s.last().0, s.last().1)
    }
}

/// An external command, fully configured: its argument vector (program
/// first), the directory it runs in, whether its output is streamed through
/// rather than captured, and its environment overrides in the order given.
pub struct Cmd {
    pub argv: Vec<String>,
    pub cwd: String,
    pub stream: bool,
    pub envs: Vec<(String, String)>,
}

/// The environment overrides as character sequences, in order.
pub open spec fn envs_view(envs: Seq<(String, String)>) -> Seq<(Seq<char>, Seq<char>)> {
    envs.map_values(|kv: (String, String)| (kv.0@, kv.1@))
}

impl Cmd {
    /// The program to spawn: the first argument word. A command with no words
    /// at all is reported as empty.
    pub fn program(&self) -> (r: Result<&String, UtilError>)
        ensures
            (r is Ok) == (self.argv@.len() > 0),
            r matches Ok(p) ==> p@ == self.argv@[0]@,
            r matches Err(e) ==> e@ == UtilErrorV::EmptyCommand,
    {
        if self.argv.len() == 0 {
            Err(UtilError::EmptyCommand)
        } else {
            Ok(&self.argv[0])
        }
    }
}

/// Accumulates the configuration of a `Cmd` and builds it.
pub struct CmdBuilder {
    pub cmd: Cmd,
}

impl CmdBuilder {
    /// A builder for the command given as one shell-style string; the string
    /// must parse into argument words. The command starts with the current
    /// directory (spelled `.`), captured output, and no environment
    /// overrides.
    pub fn new(cmdstr: &str) -> (r: Result<CmdBuilder, UtilError>)
        ensures
            (r is Ok) == (shell_split(cmdstr@) is Some),
            r matches Ok(b) ==> {
                &&& b.cmd.argv.deep_view() == shell_split(cmdstr@)->Some_0
                &&& b.cmd.cwd@ == "."@
                &&& b.cmd.stream == false
                &&& envs_view(b.cmd.envs@) == Seq::<(Seq<char>, Seq<char>)>::empty()
            },
            r matches Err(e) ==> e@ == UtilErrorV::BadCommandString(cmdstr@),
    {
        let argv = match ArgParser::parse(cmdstr) {
            Ok(v) => v,
            Err(e) => {
                return Err(e);
            },
        };
        let b = CmdBuilder {
            cmd: Cmd { argv, cwd: String::from_str("."), stream: false, envs: Vec::new() },
        };
        assert(envs_view(b.cmd.envs@) =~= Seq::<(Seq<char>, Seq<char>)>::empty());
        Ok(b)
    }

    /// Replaces the directory the command runs in.
    pub fn cwd(self, path: String) -> (r: CmdBuilder)
        ensures
            r.cmd.cwd@ == path@,
            r.cmd.argv == self.cmd.argv,
            r.cmd.stream == self.cmd.stream,
            r.cmd.envs == self.cmd.envs,
    {
        let mut b = self;
        b.cmd.cwd = path;
        b
    }

    /// Sets whether the command's output is streamed through rather than
    /// captured.
    pub fn stream(self, stream: bool) -> (r: CmdBuilder)
        ensures
            r.cmd.stream == stream,
            r.cmd.argv == self.cmd.argv,
            r.cmd.cwd == self.cmd.cwd,
            r.cmd.envs == self.cmd.envs,
    {
        let mut b = self;
        b.cmd.stream = stream;
        b
    }

    /// Appends one environment override; a later entry for the same key wins
    /// over an earlier one.
    pub fn env(self, key: String, val: String) -> (r: CmdBuilder)
        ensures
            envs_view(r.cmd.envs@) == envs_view(self.cmd.envs@).push((key@, val@)),
            env_map(envs_view(r.cmd.envs@)) == env_map(envs_view(self.cmd.envs@)).insert(
                key@,
                val@,
            ),
            r.cmd.argv == self.cmd.argv,
            r.cmd.cwd == self.cmd.cwd,
            r.cmd.stream == self.cmd.stream,
    {
        let mut b = self;
        let ghost before = envs_view(b.cmd.envs@);
        let ghost kv = (key@, val@);
        b.cmd.envs.push((key, val));
        assert(envs_view(b.cmd.envs@) =~= before.push(kv));
        proof {
            let after = envs_view(b.cmd.envs@);
            assert(after.drop_last() =~= before);
            assert(after.last() == kv);
        }
        b
    }

    /// The fully configured command.
    pub fn build(self) -> (r: Cmd)
        ensures
            r == self.cmd,
    {
        self.cmd
    }
}

} // verus!
