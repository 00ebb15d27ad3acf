//! The remote-helper protocol: the lines that git sends, and the lines it is
//! answered with.

use vstd::prelude::*;
use vstd::string::*;
use crate::error::Error;
use crate::primitives::RepoData;
use crate::text::{find, find_char, same, slice, split_words, to_chars, words};

verus! {

/// A command of git.
#[derive(Clone, Debug, PartialEq, Eq)]
pub enum Command {
    /// `capabilities`
    Capabilities,
    /// `list`, alone or with one more word
    List,
    /// `push` and a refspec
    Push { refspec: String },
    /// `fetch`, a hash and a ref name
    Fetch { sha: String, name: String },
    /// A line without a word: the batch has ended.
    Nothing,
    /// Anything else.
    Unknown,
}

/// The model of [`Command`].
pub enum CommandView {
    Capabilities,
    List,
    Push { refspec: Seq<char> },
    Fetch { sha: Seq<char>, name: Seq<char> },
    Nothing,
    Unknown,
}

impl View for Command {
    type V = CommandView;

    open spec fn view(&self) -> CommandView {
        match *self {
            Command::Capabilities => CommandView::Capabilities,
            Command::List => CommandView::List,
            Command::Push { refspec } => CommandView::Push { refspec: refspec@ },
            Command::Fetch { sha, name } => CommandView::Fetch { sha: sha@, name: name@ },
            Command::Nothing => CommandView::Nothing,
            Command::Unknown => CommandView::Unknown,
        }
    }
}

/// The command that the words of a line make up. Only the first three words
/// count: `push` takes one more word, `fetch` at least two, `capabilities`
/// none, `list` at most one.
pub open spec fn command_of(w: Seq<Seq<char>>) -> CommandView {
    if w.len() == 0 {
        CommandView::Nothing
    } else if w[0] == "push"@ && w.len() == 2 {
        CommandView::Push { refspec: w[1] }
    } else if w[0] == "fetch"@ && w.len() >= 3 {
        CommandView::Fetch { sha: w[1], name: w[2] }
    } else if w[0] == "capabilities"@ && w.len() == 1 {
        CommandView::Capabilities
    } else if w[0] == "list"@ && w.len() <= 2 {
        CommandView::List
    } else {
        CommandView::Unknown
    }
}

/// Reads one line of git.
pub fn parse_command(line: &str) -> (command: Command)
    ensures
        command@ == command_of(words(line@, 0)),
{
    let w = split_words(line);
    let n = w.len();
    if n == 0 {
        return Command::Nothing;
    }
    let head = w[0].as_str();
    if same(head, "push") && n == 2 {
        Command::Push { refspec: w[1].clone() }
    } else if same(head, "fetch") && n >= 3 {
        Command::Fetch { sha: w[1].clone(), name: w[2].clone() }
    } else if same(head, "capabilities") && n == 1 {
        Command::Capabilities
    } else if same(head, "list") && n <= 2 {
        Command::List
    } else {
        Command::Unknown
    }
}

/// What a push is asked to do: from which local ref to which remote ref, and
/// whether by force.
#[derive(Clone, Debug, PartialEq, Eq)]
pub struct Refspec {
    pub src: String,
    pub dst: String,
    pub force: bool,
}

/// The model of [`Refspec`].
pub struct RefspecView {
    pub src: Seq<char>,
    pub dst: Seq<char>,
    pub force: bool,
}

impl View for Refspec {
    type V = RefspecView;

    open spec fn view(&self) -> RefspecView {
        RefspecView { src: self.src@, dst: self.dst@, force: self.force }
    }
}

/// The refspec that a text of the form `[+]src[:dst]` stands for. A leading
/// `+` asks for force. The source ends at the first colon; the destination is
/// what stands between the first colon and the second, and the source itself
/// where there is no colon.
pub open spec fn refspec_of(s: Seq<char>) -> RefspecView {
    let force = s.len() > 0 && s[0] == '+';
    let start: int = if force { 1 } else { 0 };
    let colon = find(s, ':', start);
    let src = s.subrange(start, colon);
    if colon >= s.len() {
        RefspecView { src, dst: src, force }
    } else {
        RefspecView { src, dst: s.subrange(colon + 1, find(s, ':', colon + 1)), force }
    }
}

/// Reads the refspec of a push.
pub fn parse_refspec(arg: &str) -> (refspec: Refspec)
    ensures
        refspec@ == refspec_of(arg@),
{
    let chars = to_chars(arg);
    let force = chars.len() > 0 && chars[0] == '+';
    let start: usize = if force { 1 } else { 0 };
    let colon = find_char(&chars, ':', start);
    let src = slice(arg, start, colon);
    if colon >= chars.len() {
        let dst = src.clone();
        Refspec { src, dst, force }
    } else {
        let end = find_char(&chars, ':', colon + 1);
        Refspec { src, dst: slice(arg, colon + 1, end), force }
    }
}

/// A decimal digit.
pub open spec fn is_digit(c: char) -> bool {
    '0' <= c && c <= '9'
}

/// The text is a number: one digit or more, and nothing else.
pub open spec fn all_digits(s: Seq<char>) -> bool {
    s.len() > 0 && forall|i: int| 0 <= i < s.len() ==> is_digit(#[trigger] s[i])
}

/// The value of a text of digits.
pub open spec fn digits_value(s: Seq<char>) -> nat
    decreases s.len(),
{
    if s.len() == 0 {
        0
    } else {
        digits_value(s.drop_last()) * 10 + ((s.last() as u32 - '0' as u32) as nat)
    }
}

/// The 32-bit number that a text stands for, if it is a number and fits.
pub open spec fn number_of(s: Seq<char>) -> Option<u32> {
    if all_digits(s) && digits_value(s) <= u32::MAX {
        Some(digits_value(s) as u32)
    } else {
        None
    }
}

/// Reads the number that stands in `chars` from `from` up to `to`.
fn parse_number(chars: &Vec<char>, from: usize, to: usize) -> (r: Option<u32>)
    requires
        from <= to <= chars@.len(),
    ensures
        r == number_of(chars@.subrange(from as int, to as int)),
{
    let ghost s = chars@.subrange(from as int, to as int);
    if from == to {
        return None;
    }
    let mut acc: u64 = 0;
    let mut big = false;
    let mut i = from;
    while i < to
        invariant
            from <= i <= to <= chars@.len(),
            s == chars@.subrange(from as int, to as int),
            forall|j: int| 0 <= j < i - from ==> is_digit(#[trigger] s[j]),
            big ==> digits_value(s.take(i - from)) > u32::MAX,
            !big ==> digits_value(s.take(i - from)) == acc && acc <= u32::MAX,
        decreases to - i,
    {
        let c = chars[i];
        if !(c >= '0' && c <= '9') {
            assert(!is_digit(s[i - from]));
            return None;
        }
        let d = (c as u32 - '0' as u32) as u64;
        proof {
            let k = i - from;
            assert(s.take(k + 1).drop_last() =~= s.take(k));
        }
        if !big {
            acc = acc * 10 + d;
            if acc > u32::MAX as u64 {
                big = true;
            }
        }
        i += 1;
    }
    assert(s.take(to - from) =~= s);
    if big {
        None
    } else {
        Some(acc as u32)
    }
}

/// The repository and the subasset that an address of the form
/// `inv4://<repo-id>[/<subasset-id>]` names; both are numbers of 32 bits. An
/// address without a repository is refused. A slash with nothing behind it
/// names no subasset; what follows a second slash is not read.
pub open spec fn address_of(s: Seq<char>) -> Option<(u32, Option<u32>)> {
    let p = "inv4://"@;
    if !p.is_prefix_of(s) {
        None
    } else {
        let a = find(s, '/', p.len() as int);
        match number_of(s.subrange(p.len() as int, a)) {
            None => None,
            Some(repo) => {
                let b = find(s, '/', a + 1);
                if a >= s.len() || b == a + 1 {
                    Some((repo, None))
                } else {
                    match number_of(s.subrange(a + 1, b)) {
                        None => None,
                        Some(sub) => Some((repo, Some(sub))),
                    }
                }
            },
        }
    }
}

/// Reads the address that the helper was started with.
pub fn parse_url(url: &str) -> (r: Result<(u32, Option<u32>), Error>)
    ensures
        match address_of(url@) {
            Some(address) => r == Ok::<(u32, Option<u32>), Error>(address),
            None => r == Err::<(u32, Option<u32>), Error>(Error::Protocol),
        },
{
    proof {
        reveal_strlit("inv4://");
    }
    if !crate::text::starts_with(url, "inv4://") {
        return Err(Error::Protocol);
    }
    let chars = to_chars(url);
    let a = find_char(&chars, '/', 7);
    let repo = match parse_number(&chars, 7, a) {
        None => {
            return Err(Error::Protocol);
        },
        Some(repo) => repo,
    };
    if a >= chars.len() {
        return Ok((repo, None));
    }
    let b = find_char(&chars, '/', a + 1);
    if b == a + 1 {
        return Ok((repo, None));
    }
    match parse_number(&chars, a + 1, b) {
        None => Err(Error::Protocol),
        Some(sub) => Ok((repo, Some(sub))),
    }
}

/// The answer to `capabilities`: the two that the helper has, and a blank
/// line.
pub fn capabilities() -> (reply: String)
    ensures
        reply@ == "push\nfetch\n\n"@,
{
    "push\nfetch\n\n".to_owned()
}

/// The first `n` lines of the answer to `list`: of each ref the hash of its
/// tip, a space, and its name.
pub open spec fn ref_lines(keys: Seq<Seq<char>>, refs: Map<Seq<char>, Seq<char>>, n: int) -> Seq<
    char,
>
    decreases n,
{
    if n <= 0 {
        Seq::empty()
    } else {
        ref_lines(keys, refs, n - 1) + refs[keys[n - 1]] + " "@ + keys[n - 1] + "\n"@
    }
}

/// The answer to `list`: a line for each ref, in ascending order of the
/// names, and a blank line.
pub fn list(manifest: &RepoData) -> (reply: String)
    ensures
        reply@ == ref_lines(
            manifest.refs.keys(),
            manifest@.refs,
            manifest.refs.keys().len() as int,
        ) + "\n"@,
{
    let n = manifest.refs.len();
    let mut reply = String::new();
    let mut i: usize = 0;
    let ghost keys = manifest.refs.keys();
    while i < n
        invariant
            i <= n,
            n == keys.len(),
            keys == manifest.refs.keys(),
            reply@ == ref_lines(keys, manifest@.refs, i as int),
        decreases n - i,
    {
        let name = manifest.refs.key_at(i);
        let tip = manifest.refs.value_at(i);
        reply.append(tip.as_str());
        reply.append(" ");
        reply.append(name.as_str());
        reply.append("\n");
        i += 1;
    }
    reply.append("\n");
    reply
}

/// The answer to a push: `ok` and the ref, or `error`, the ref and the
/// reason in quotes; then a blank line.
pub open spec fn push_reply_text(dst: Seq<char>, outcome: Result<(), Error>) -> Seq<char> {
    match outcome {
        Ok(_) => "ok "@ + dst + "\n\n"@,
        Err(e) => "error "@ + dst + " \""@ + e.message_text() + "\"\n\n"@,
    }
}

/// The answer to a push.
pub fn push_reply(dst: &str, outcome: Result<(), Error>) -> (reply: String)
    ensures
        reply@ == push_reply_text(dst@, outcome),
{
    match outcome {
        Ok(_) => {
            let mut reply = "ok ".to_owned();
            reply.append(dst);
            reply.append("\n\n");
            reply
        },
        Err(e) => {
            let mut reply = "error ".to_owned();
            reply.append(dst);
            reply.append(" \"");
            reply.append(e.message());
            reply.append("\"\n\n");
            reply
        },
    }
}

/// The answer to a fetch: a blank line. A fetch that failed has set no ref,
/// which is how git learns of the failure.
pub fn fetch_reply() -> (reply: String)
    ensures
        reply@ == "\n"@,
{
    "\n".to_owned()
}

/// The answer to a line that is no command.
pub fn unknown_reply() -> (reply: String)
    ensures
        reply@ == "unknown command\n\n"@,
{
    "unknown command\n\n".to_owned()
}

} // verus!
