//! Pipeline parsing: one input line becomes an ordered sequence of stage
//! texts plus a background flag; each stage text splits into a command token
//! and argument tokens; redirection markers embedded in the command token are
//! resolved into file paths.

use vstd::prelude::*;
use crate::bytes::{
    find_at, find_from, split_delim, split_delim_exec, sub_vec, tokenize, tokens_of, trim_end,
    trim_end_spec, views_of,
};

verus! {

/// The stage delimiter: the three bytes `" | "`.
pub open spec fn pipe_delim() -> Seq<u8> {
    seq![32u8, 124u8, 32u8]
}

fn pipe_delim_vec() -> (r: Vec<u8>)
    ensures
        r@ == pipe_delim(),
{
    let mut v: Vec<u8> = Vec::new();
    v.push(32);
    v.push(124);
    v.push(32);
    proof {
        assert(v@ =~= pipe_delim());
    }
    v
}

/// Does the line, after trailing whitespace is removed, end in `&`?
pub open spec fn line_background(s: Seq<u8>) -> bool {
    let t = trim_end_spec(s);
    t.len() > 0 && t[t.len() - 1] == 38
}

/// The line with trailing whitespace removed, and, for a background line,
/// the trailing `&` and any whitespace before it removed too.
pub open spec fn line_body(s: Seq<u8>) -> Seq<u8> {
    let t = trim_end_spec(s);
    if line_background(s) {
        trim_end_spec(t.take(t.len() - 1))
    } else {
        t
    }
}

/// The stage texts of the line: the body split on `" | "`; a blank line has
/// no stages.
pub open spec fn line_stages(s: Seq<u8>) -> Seq<Seq<u8>> {
    if line_body(s).len() == 0 {
        seq![]
    } else {
        split_delim(line_body(s), pipe_delim())
    }
}

/// One parsed input line: its stage texts, in order, and whether it is to
/// run in the background.
pub struct ParsedLine {
    pub stages: Vec<Vec<u8>>,
    pub background: bool,
}

/// Split an input line into stage texts and the background flag.
pub fn parse_line(s: &[u8]) -> (r: ParsedLine)
    ensures
        r.background == line_background(s@),
        views_of(r.stages@) == line_stages(s@),
{
    let t = trim_end(s);
    let background = t.len() > 0 && t[t.len() - 1] == 38;
    let body: Vec<u8> = if background {
        let cut = sub_vec(t.as_slice(), 0, t.len() - 1);
        proof {
            assert(cut@ =~= trim_end_spec(s@).take(trim_end_spec(s@).len() - 1));
        }
        trim_end(cut.as_slice())
    } else {
        t
    };
    if body.len() == 0 {
        let stages: Vec<Vec<u8>> = Vec::new();
        proof {
            assert(views_of(stages@) =~= line_stages(s@));
        }
        ParsedLine { stages, background }
    } else {
        let d = pipe_delim_vec();
        let stages = split_delim_exec(body.as_slice(), d.as_slice());
        ParsedLine { stages, background }
    }
}

/// The command token of a stage: its first whitespace-separated token, or
/// empty when the stage is blank.
pub open spec fn stage_cmd(stage: Seq<u8>) -> Seq<u8> {
    if tokens_of(stage).len() == 0 {
        Seq::empty()
    } else {
        tokens_of(stage)[0]
    }
}

/// The argument tokens of a stage: every token after the first.
pub open spec fn stage_args(stage: Seq<u8>) -> Seq<Seq<u8>> {
    if tokens_of(stage).len() == 0 {
        Seq::empty()
    } else {
        tokens_of(stage).skip(1)
    }
}

/// A stage's command token and argument tokens.
pub struct StageWords {
    pub cmd: Vec<u8>,
    pub args: Vec<Vec<u8>>,
}

/// Split a stage text into its command token and argument tokens.
pub fn split_stage(stage: &[u8]) -> (r: StageWords)
    ensures
        r.cmd@ == stage_cmd(stage@),
        views_of(r.args@) == stage_args(stage@),
{
    let mut toks = tokenize(stage);
    if toks.len() == 0 {
        let cmd: Vec<u8> = Vec::new();
        let args: Vec<Vec<u8>> = Vec::new();
        proof {
            assert(cmd@ =~= stage_cmd(stage@));
            assert(views_of(args@) =~= stage_args(stage@));
        }
        StageWords { cmd, args }
    } else {
        let ghost all = toks@;
        let cmd = toks.remove(0);
        proof {
            assert(views_of(all)[0] == cmd@);
            assert(views_of(toks@) =~= views_of(all).skip(1));
        }
        StageWords { cmd, args: toks }
    }
}

/// The builtins of the shell, and the two stage forms that are not builtins:
/// a blank stage and an external command.
#[derive(Clone, Copy, PartialEq, Eq, Structural, Debug)]
pub enum CommandKind {
    Empty,
    Exit,
    Fg,
    Bg,
    Jobs,
    Cd,
    External,
}

pub open spec fn exit_name() -> Seq<u8> {
    seq![101u8, 120u8, 105u8, 116u8]
}

pub open spec fn fg_name() -> Seq<u8> {
    seq![102u8, 103u8]
}

pub open spec fn bg_name() -> Seq<u8> {
    seq![98u8, 103u8]
}

pub open spec fn jobs_name() -> Seq<u8> {
    seq![106u8, 111u8, 98u8, 115u8]
}

pub open spec fn cd_name() -> Seq<u8> {
    seq![99u8, 100u8]
}

/// How a command token is dispatched: a builtin by its name, a blank token
/// as a no-op, anything else as an external command.
pub open spec fn kind_of(cmd: Seq<u8>) -> CommandKind {
    if cmd.len() == 0 {
        CommandKind::Empty
    } else if cmd == exit_name() {
        CommandKind::Exit
    } else if cmd == fg_name() {
        CommandKind::Fg
    } else if cmd == bg_name() {
        CommandKind::Bg
    } else if cmd == jobs_name() {
        CommandKind::Jobs
    } else if cmd == cd_name() {
        CommandKind::Cd
    } else {
        CommandKind::External
    }
}

/// Classify a command token.
pub fn classify(cmd: &[u8]) -> (k: CommandKind)
    ensures
        k == kind_of(cmd@),
{
    if cmd.len() == 0 {
        CommandKind::Empty
    } else if cmd.len() == 4 && cmd[0] == 101 && cmd[1] == 120 && cmd[2] == 105 && cmd[3] == 116 {
        proof {
            assert(cmd@ =~= exit_name());
        }
        CommandKind::Exit
    } else if cmd.len() == 2 && cmd[0] == 102 && cmd[1] == 103 {
        proof {
            assert(cmd@ =~= fg_name());
        }
        CommandKind::Fg
    } else if cmd.len() == 2 && cmd[0] == 98 && cmd[1] == 103 {
        proof {
            assert(cmd@ =~= bg_name());
        }
        CommandKind::Bg
    } else if cmd.len() == 4 && cmd[0] == 106 && cmd[1] == 111 && cmd[2] == 98 && cmd[3] == 115 {
        proof {
            assert(cmd@ =~= jobs_name());
        }
        CommandKind::Jobs
    } else if cmd.len() == 2 && cmd[0] == 99 && cmd[1] == 100 {
        proof {
            assert(cmd@ =~= cd_name());
        }
        CommandKind::Cd
    } else {
        CommandKind::External
    }
}

/// The error-redirection marker: the two bytes `"2>"`.
pub open spec fn err_marker() -> Seq<u8> {
    seq![50u8, 62u8]
}

/// The output-redirection marker: the byte `">"`.
pub open spec fn out_marker() -> Seq<u8> {
    seq![62u8]
}

/// The input-redirection marker: the byte `"<"`.
pub open spec fn in_marker() -> Seq<u8> {
    seq![60u8]
}

pub open spec fn err_pos(t: Seq<u8>) -> int {
    find_at(t, err_marker(), 0)
}

/// Does the command token carry an error redirection?
pub open spec fn has_err(t: Seq<u8>) -> bool {
    err_pos(t) >= 0
}

/// The error-redirection target: everything after the first `"2>"`.
pub open spec fn err_path(t: Seq<u8>) -> Seq<u8> {
    t.subrange(err_pos(t) + 2, t.len() as int)
}

/// The command token with the error redirection removed.
pub open spec fn cmd_after_err(t: Seq<u8>) -> Seq<u8> {
    if has_err(t) {
        t.subrange(0, err_pos(t))
    } else {
        t
    }
}

/// Output redirection is detected only when no error redirection is present.
pub open spec fn out_pos(t: Seq<u8>) -> int {
    if has_err(t) {
        -1
    } else {
        find_at(cmd_after_err(t), out_marker(), 0)
    }
}

/// Does the command token carry an output redirection?
pub open spec fn has_out(t: Seq<u8>) -> bool {
    out_pos(t) >= 0
}

/// The output-redirection target: everything after the first `">"`.
pub open spec fn out_path(t: Seq<u8>) -> Seq<u8> {
    cmd_after_err(t).subrange(out_pos(t) + 1, cmd_after_err(t).len() as int)
}

/// The command token with error and output redirections removed.
pub open spec fn cmd_after_out(t: Seq<u8>) -> Seq<u8> {
    if has_out(t) {
        cmd_after_err(t).subrange(0, out_pos(t))
    } else {
        cmd_after_err(t)
    }
}

pub open spec fn in_pos(t: Seq<u8>) -> int {
    find_at(cmd_after_out(t), in_marker(), 0)
}

/// Does the command token carry an input redirection?
pub open spec fn has_in(t: Seq<u8>) -> bool {
    in_pos(t) >= 0
}

/// The input-redirection target: everything after the first `"<"`.
pub open spec fn in_path(t: Seq<u8>) -> Seq<u8> {
    cmd_after_out(t).subrange(in_pos(t) + 1, cmd_after_out(t).len() as int)
}

/// The command name that is left once every redirection is removed.
pub open spec fn red_cmd(t: Seq<u8>) -> Seq<u8> {
    if has_in(t) {
        cmd_after_out(t).subrange(0, in_pos(t))
    } else {
        cmd_after_out(t)
    }
}

/// Every redirection marker present in the token has a non-empty target.
pub open spec fn redirects_ok(t: Seq<u8>) -> bool {
    &&& (has_err(t) ==> err_path(t).len() > 0)
    &&& (has_out(t) ==> out_path(t).len() > 0)
    &&& (has_in(t) ==> in_path(t).len() > 0)
}

/// A malformed stage: a redirection marker without a target path.
#[derive(Clone, Copy, PartialEq, Eq, Structural, Debug)]
pub enum ParseError {
    MissingRedirectTarget,
}

/// A command token resolved into the command name and its redirection
/// targets.
pub struct Redirects {
    pub cmd: Vec<u8>,
    pub input: Option<Vec<u8>>,
    pub output: Option<Vec<u8>>,
    pub error: Option<Vec<u8>>,
}

fn err_marker_vec() -> (r: Vec<u8>)
    ensures
        r@ == err_marker(),
{
    let mut v: Vec<u8> = Vec::new();
    v.push(50);
    v.push(62);
    proof {
        assert(v@ =~= err_marker());
    }
    v
}

fn out_marker_vec() -> (r: Vec<u8>)
    ensures
        r@ == out_marker(),
{
    let mut v: Vec<u8> = Vec::new();
    v.push(62);
    proof {
        assert(v@ =~= out_marker());
    }
    v
}

fn in_marker_vec() -> (r: Vec<u8>)
    ensures
        r@ == in_marker(),
{
    let mut v: Vec<u8> = Vec::new();
    v.push(60);
    proof {
        assert(v@ =~= in_marker());
    }
    v
}

/// Resolve the redirection markers embedded in a command token.  Error
/// redirection (`2>`) is detected first; output redirection (`>`) only when
/// no error redirection is present; input redirection (`<`) independently of
/// the other two.  A marker with an empty target is a parse error.
pub fn parse_redirects(token: &[u8]) -> (r: Result<Redirects, ParseError>)
    ensures
        match r {
            Ok(rd) => redirects_ok(token@) && rd.cmd@ == red_cmd(token@) && (match rd.error {
                Some(p) => has_err(token@) && p@ == err_path(token@),
                None => !has_err(token@),
            }) && (match rd.output {
                Some(p) => has_out(token@) && p@ == out_path(token@),
                None => !has_out(token@),
            }) && (match rd.input {
                Some(p) => has_in(token@) && p@ == in_path(token@),
                None => !has_in(token@),
            }),
            Err(e) => !redirects_ok(token@) && e == ParseError::MissingRedirectTarget,
        },
{
    let em = err_marker_vec();
    let mut error: Option<Vec<u8>> = None;
    let mut cur: Vec<u8>;
    match find_from(token, em.as_slice(), 0) {
        Some(f) => {
            if f + 2 >= token.len() {
                proof {
                    assert(err_path(token@).len() == 0);
                }
                return Err(ParseError::MissingRedirectTarget);
            }
            error = Some(sub_vec(token, f + 2, token.len()));
            cur = sub_vec(token, 0, f);
        },
        None => {
            cur = sub_vec(token, 0, token.len());
            proof {
                assert(cur@ =~= token@);
            }
        },
    }
    proof {
        assert(cur@ == cmd_after_err(token@));
    }
    let om = out_marker_vec();
    let mut output: Option<Vec<u8>> = None;
    if error.is_none() {
        match find_from(cur.as_slice(), om.as_slice(), 0) {
            Some(f) => {
                if f + 1 >= cur.len() {
                    proof {
                        assert(out_path(token@).len() == 0);
                    }
                    return Err(ParseError::MissingRedirectTarget);
                }
                output = Some(sub_vec(cur.as_slice(), f + 1, cur.len()));
                cur = sub_vec(cur.as_slice(), 0, f);
            },
            None => {},
        }
    }
    proof {
        assert(cur@ == cmd_after_out(token@));
    }
    let im = in_marker_vec();
    let mut input: Option<Vec<u8>> = None;
    match find_from(cur.as_slice(), im.as_slice(), 0) {
        Some(f) => {
            if f + 1 >= cur.len() {
                proof {
                    assert(in_path(token@).len() == 0);
                }
                return Err(ParseError::MissingRedirectTarget);
            }
            input = Some(sub_vec(cur.as_slice(), f + 1, cur.len()));
            cur = sub_vec(cur.as_slice(), 0, f);
        },
        None => {},
    }
    proof {
        assert(cur@ == red_cmd(token@));
    }
    Ok(Redirects { cmd: cur, input, output, error })
}

} // verus!
