//! cdb command-line argv assembly.
//!
//! Centralises every cdb switch we ever issue (`-p`, `-y`, `-pv`, `-g`,
//! `-o`) so that the session actor and integration tests don't have to
//! agree on the spelling separately. Also centralises the in-band REPL
//! commands (`g`, `qd`, `q`).

use vstd::prelude::*;

use crate::error::{is_other_with, Error};
use crate::text::{decimal, push_decimal};

verus! {

/// The character views of a sequence of strings.
pub open spec fn strings_view(v: Seq<String>) -> Seq<Seq<char>> {
    v.map_values(|s: String| s@)
}

/// `seq![x]` when `b` holds, empty otherwise.
pub open spec fn flag(b: bool, x: Seq<char>) -> Seq<Seq<char>> {
    if b {
        seq![x]
    } else {
        Seq::empty()
    }
}

/// `-y <path>` when a symbol path is given.
pub open spec fn symbol_switch(symbol_path: Option<Seq<char>>) -> Seq<Seq<char>> {
    match symbol_path {
        Some(sp) => seq!["-y"@, sp],
        None => Seq::empty(),
    }
}

/// The argv of an attach session.
pub open spec fn attach_argv_spec(
    pid: u32,
    noninvasive: bool,
    initial_break: bool,
    symbol_path: Option<Seq<char>>,
    extra_args: Seq<Seq<char>>,
) -> Seq<Seq<char>> {
    flag(noninvasive, "-pv"@) + flag(!initial_break, "-g"@) + seq!["-p"@, decimal(pid as nat)]
        + symbol_switch(symbol_path) + extra_args
}

/// The argv of a launch session for an executable whose path reads as
/// `executable`.
pub open spec fn launch_argv_spec(
    executable: Seq<char>,
    target_args: Seq<Seq<char>>,
    debug_children: bool,
    initial_break: bool,
    symbol_path: Option<Seq<char>>,
    extra_args: Seq<Seq<char>>,
) -> Seq<Seq<char>> {
    flag(!initial_break, "-g"@) + flag(debug_children, "-o"@) + symbol_switch(symbol_path)
        + extra_args + seq![executable] + target_args
}

/// The view of an optional string slice.
pub open spec fn opt_view(o: Option<&str>) -> Option<Seq<char>> {
    match o {
        Some(s) => Some(s@),
        None => None,
    }
}

/// The error reported for an executable path that is not valid UTF-8.
pub open spec fn non_utf8_path_error(e: Error) -> bool {
    is_other_with(e, "non-utf8 executable path"@)
}

fn push_all(args: &mut Vec<String>, extra: &[String])
    ensures
        strings_view(final(args)@) == strings_view(old(args)@) + strings_view(extra@),
{
    let n = extra.len();
    let ghost start = args@;
    for i in 0..n
        invariant
            n == extra@.len(),
            args@ == start + extra@.take(i as int),
    {
        args.push(extra[i].clone());
        assert(extra@.take(i + 1) == extra@.take(i as int).push(extra@[i as int]));
    }
    assert(extra@.take(n as int) == extra@);
    assert(strings_view(start + extra@) =~= strings_view(start) + strings_view(extra@));
}

fn push_str_arg(args: &mut Vec<String>, s: &str)
    ensures
        strings_view(final(args)@) == strings_view(old(args)@).push(s@),
{
    args.push(s.to_string());
    assert(strings_view(args@) =~= strings_view(old(args)@).push(s@));
}

fn push_symbol_switch(args: &mut Vec<String>, symbol_path: Option<&str>)
    ensures
        strings_view(final(args)@) == strings_view(old(args)@) + symbol_switch(
            opt_view(symbol_path),
        ),
{
    if let Some(sp) = symbol_path {
        push_str_arg(args, "-y");
        push_str_arg(args, sp);
        assert(strings_view(args@) =~= strings_view(old(args)@) + symbol_switch(
            opt_view(symbol_path),
        ));
    } else {
        assert(strings_view(args@) =~= strings_view(old(args)@) + symbol_switch(
            opt_view(symbol_path),
        ));
    }
}

/// Argv builder for an attach session (`cdb -p <pid>`).
pub fn attach_argv(
    pid: u32,
    noninvasive: bool,
    initial_break: bool,
    symbol_path: Option<&str>,
    extra_args: &[String],
) -> (r: Vec<String>)
    ensures
        strings_view(r@) == attach_argv_spec(
            pid,
            noninvasive,
            initial_break,
            opt_view(symbol_path),
            strings_view(extra_args@),
        ),
{
    let mut args: Vec<String> = Vec::new();
    let ghost s0 = strings_view(args@);
    if noninvasive {
        push_str_arg(&mut args, "-pv");
    }
    let ghost s1 = strings_view(args@);
    assert(s1 =~= flag(noninvasive, "-pv"@));
    if !initial_break {
        push_str_arg(&mut args, "-g");
    }
    let ghost s2 = strings_view(args@);
    assert(s2 =~= s1 + flag(!initial_break, "-g"@));
    push_str_arg(&mut args, "-p");
    let mut pid_text = String::new();
    push_decimal(&mut pid_text, pid as u64);
    assert(pid_text@ =~= decimal(pid as nat));
    let ghost before = args@;
    args.push(pid_text);
    assert(strings_view(args@) =~= strings_view(before).push(decimal(pid as nat)));
    let ghost s3 = strings_view(args@);
    assert(s3 =~= s2 + seq!["-p"@, decimal(pid as nat)]);
    push_symbol_switch(&mut args, symbol_path);
    push_all(&mut args, extra_args);
    assert(strings_view(args@) =~= attach_argv_spec(
        pid,
        noninvasive,
        initial_break,
        opt_view(symbol_path),
        strings_view(extra_args@),
    ));
    args
}

/// Argv builder for a launch session (`cdb <executable> <args...>`).
/// `executable` is the text of the executable's path, `None` when the path
/// is not valid UTF-8, which is refused.
pub fn launch_argv(
    executable: Option<&str>,
    target_args: &[String],
    debug_children: bool,
    initial_break: bool,
    symbol_path: Option<&str>,
    extra_args: &[String],
) -> (r: Result<Vec<String>, Error>)
    ensures
        match executable {
            Some(exe) => r matches Ok(v) && strings_view(v@) == launch_argv_spec(
                exe@,
                strings_view(target_args@),
                debug_children,
                initial_break,
                opt_view(symbol_path),
                strings_view(extra_args@),
            ),
            None => r matches Err(e) && non_utf8_path_error(e),
        },
{
    let mut args: Vec<String> = Vec::new();
    if !initial_break {
        push_str_arg(&mut args, "-g");
    }
    let ghost s1 = strings_view(args@);
    assert(s1 =~= flag(!initial_break, "-g"@));
    if debug_children {
        push_str_arg(&mut args, "-o");
    }
    let ghost s2 = strings_view(args@);
    assert(s2 =~= s1 + flag(debug_children, "-o"@));
    push_symbol_switch(&mut args, symbol_path);
    push_all(&mut args, extra_args);
    match executable {
        Some(exe) => {
            push_str_arg(&mut args, exe);
            push_all(&mut args, target_args);
            assert(strings_view(args@) =~= launch_argv_spec(
                exe@,
                strings_view(target_args@),
                debug_children,
                initial_break,
                opt_view(symbol_path),
                strings_view(extra_args@),
            ));
            Ok(args)
        },
        None => Err(Error::other("non-utf8 executable path")),
    }
}

/// In-band cdb commands (sent over stdin) used by the session actor.
/// Continue execution.
pub const GO: &'static str = "g\n";

/// Detach from the target, leaving it running.
pub const QUIT_DETACH: &'static str = "qd\n";

/// Terminate target and debugger.
pub const QUIT_TERMINATE: &'static str = "q\n";


/// A launch argv starts with `-g` exactly when the initial break is
/// skipped and carries `-o` exactly when child processes are debugged
/// (whatever the initial break), then the symbol path, the extra
/// arguments, the executable and the target's arguments, in that order.
pub proof fn law_launch_argv_layout(
    executable: Seq<char>,
    target_args: Seq<Seq<char>>,
    debug_children: bool,
    initial_break: bool,
    symbol_path: Option<Seq<char>>,
    extra_args: Seq<Seq<char>>,
)
    ensures
        ({
            let a = launch_argv_spec(
                executable,
                target_args,
                debug_children,
                initial_break,
                symbol_path,
                extra_args,
            );
            let g: int = if initial_break { 0 } else { 1 };
            let o: int = if debug_children { 1 } else { 0 };
            let y: int = if symbol_path is Some { 2 } else { 0 };
            let n = g + o + y + extra_args.len();
            &&& a.len() == n + 1 + target_args.len()
            &&& !initial_break ==> a[0] == "-g"@
            &&& debug_children ==> a[g] == "-o"@
            &&& symbol_path matches Some(sp) ==> a[g + o] == "-y"@ && a[g + o + 1] == sp
            &&& a.subrange(g + o + y, n) == extra_args
            &&& a[n] == executable
            &&& a.skip(n + 1) == target_args
            &&& (!debug_children && !extra_args.contains("-o"@) && symbol_path != Some("-o"@))
                ==> forall|i: int| 0 <= i < n ==> a[i] != "-o"@
        }),
{
    reveal_strlit("-o");
    reveal_strlit("-g");
    reveal_strlit("-y");
    let a = launch_argv_spec(executable, target_args, debug_children, initial_break, symbol_path, extra_args);
    let g: int = if initial_break { 0 } else { 1 };
    let o: int = if debug_children { 1 } else { 0 };
    let y: int = if symbol_path is Some { 2 } else { 0 };
    let n = g + o + y + extra_args.len();
    let head = flag(!initial_break, "-g"@) + flag(debug_children, "-o"@) + symbol_switch(symbol_path);
    assert(head.len() == g + o + y);
    assert(a == head + extra_args + seq![executable] + target_args);
    assert(a.subrange(g + o + y, n) =~= extra_args);
    assert(a.skip(n + 1) =~= target_args);
    assert("-g"@[1] == 'g' && "-o"@[1] == 'o' && "-y"@[1] == 'y');
    if !debug_children && !extra_args.contains("-o"@) && symbol_path != Some("-o"@) {
        assert forall|i: int| 0 <= i < n implies a[i] != "-o"@ by {
            if i >= g + o + y {
                assert(a[i] == extra_args[i - (g + o + y)]);
            } else {
                assert(a[i] == head[i]);
            }
        }
    }
}

/// An attach argv: `-pv` first for a non-invasive attach, then `-g` when
/// the initial break is skipped, then `-p` and the decimal pid, then the
/// symbol path and the extra arguments.
pub proof fn law_attach_argv_layout(
    pid: u32,
    noninvasive: bool,
    initial_break: bool,
    symbol_path: Option<Seq<char>>,
    extra_args: Seq<Seq<char>>,
)
    ensures
        ({
            let a = attach_argv_spec(pid, noninvasive, initial_break, symbol_path, extra_args);
            let v: int = if noninvasive { 1 } else { 0 };
            let g: int = if initial_break { 0 } else { 1 };
            let y: int = if symbol_path is Some { 2 } else { 0 };
            &&& a.len() == v + g + 2 + y + extra_args.len()
            &&& noninvasive ==> a[0] == "-pv"@
            &&& !initial_break ==> a[v] == "-g"@
            &&& a[v + g] == "-p"@
            &&& a[v + g + 1] == decimal(pid as nat)
            &&& symbol_path matches Some(sp) ==> a[v + g + 2] == "-y"@ && a[v + g + 3] == sp
            &&& a.skip(v + g + 2 + y) == extra_args
        }),
{
    let a = attach_argv_spec(pid, noninvasive, initial_break, symbol_path, extra_args);
    let v: int = if noninvasive { 1 } else { 0 };
    let g: int = if initial_break { 0 } else { 1 };
    let y: int = if symbol_path is Some { 2 } else { 0 };
    let head = flag(noninvasive, "-pv"@) + flag(!initial_break, "-g"@) + seq!["-p"@, decimal(pid as nat)]
        + symbol_switch(symbol_path);
    assert(head.len() == v + g + 2 + y);
    assert(a.skip(v + g + 2 + y) =~= extra_args);
}

} // verus!
