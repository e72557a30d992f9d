//! What launching a program asks for, as far as it can be decided before the
//! operating system is asked: where the program is looked for, what is done
//! to descriptors, what an interpreter directive changes, and what the new
//! image is given as arguments and environment.

use crate::sys::{EACCES, ENOENT, PATH_SEPARATOR, STDERR_FILENO, STDIN_FILENO, STDOUT_FILENO};
use crate::text::{chars_of, string_of_range, texts};
use vstd::prelude::*;

verus! {

/// One step on the descriptors of a process.
#[derive(Debug, Clone, Copy, PartialEq, Eq, Structural)]
pub enum FdOp {
    /// Make `to` a copy of `from`.
    Dup2 { from: i32, to: i32 },
    /// Close the descriptor.
    Close(i32),
}

/// Why a program could not be launched.
#[derive(Debug, Clone, Copy, PartialEq, Eq, Structural)]
pub enum LaunchError {
    /// No executable of that name was found.
    NotFound,
    /// The file names an interpreter, but may not be executed by this user.
    PermissionDenied,
    /// The operating system refused, with this error number.
    Os(i32),
}

impl LaunchError {
    /// The error number that stands for the error.
    pub open spec fn spec_errno(self) -> int {
        match self {
            LaunchError::NotFound => ENOENT as int,
            LaunchError::PermissionDenied => EACCES as int,
            LaunchError::Os(errno) => errno as int,
        }
    }

    /// The error number that stands for the error.
    pub fn errno(&self) -> (r: i32)
        ensures
            r == self.spec_errno(),
    {
        match *self {
            LaunchError::NotFound => ENOENT,
            LaunchError::PermissionDenied => EACCES,
            LaunchError::Os(errno) => errno,
        }
    }
}

/// What a child does to put a descriptor that it was given onto a standard
/// slot: copy it there and close the descriptor it was given.
pub open spec fn redirected(fd: Option<i32>, slot: i32) -> Seq<FdOp> {
    match fd {
        Some(fd) => seq![FdOp::Dup2 { from: fd, to: slot }, FdOp::Close(fd)],
        None => Seq::empty(),
    }
}

/// What the parent does to a descriptor that it handed to a child: close it.
pub open spec fn released(fd: Option<i32>) -> Seq<FdOp> {
    match fd {
        Some(fd) => seq![FdOp::Close(fd)],
        None => Seq::empty(),
    }
}

/// What the child does to its descriptors between the fork and the new image:
/// standard input, output and error in turn.
pub open spec fn child_setup(stdin: Option<i32>, stdout: Option<i32>, stderr: Option<i32>) -> Seq<
    FdOp,
> {
    redirected(stdin, STDIN_FILENO) + redirected(stdout, STDOUT_FILENO) + redirected(
        stderr,
        STDERR_FILENO,
    )
}

/// What the parent does to its descriptors right after the fork: it closes
/// every descriptor that it handed to the child.
pub open spec fn parent_cleanup(stdin: Option<i32>, stdout: Option<i32>, stderr: Option<i32>) -> Seq<
    FdOp,
> {
    released(stdin) + released(stdout) + released(stderr)
}

fn redirect(ops: &mut Vec<FdOp>, fd: Option<i32>, slot: i32)
    ensures
        final(ops)@ == old(ops)@ + redirected(fd, slot),
{
    match fd {
        Some(fd) => {
            ops.push(FdOp::Dup2 { from: fd, to: slot });
            ops.push(FdOp::Close(fd));
            assert(ops@ =~= old(ops)@ + redirected(Some(fd), slot));
        },
        None => {
            assert(ops@ =~= old(ops)@ + redirected(None, slot));
        },
    }
}

fn release(ops: &mut Vec<FdOp>, fd: Option<i32>)
    ensures
        final(ops)@ == old(ops)@ + released(fd),
{
    match fd {
        Some(fd) => {
            ops.push(FdOp::Close(fd));
            assert(ops@ =~= old(ops)@ + released(Some(fd)));
        },
        None => {
            assert(ops@ =~= old(ops)@ + released(None));
        },
    }
}

/// Lists what the child does to its descriptors before the new image.
pub fn child_descriptors(stdin: Option<i32>, stdout: Option<i32>, stderr: Option<i32>) -> (r: Vec<
    FdOp,
>)
    ensures
        r@ == child_setup(stdin, stdout, stderr),
{
    let mut ops: Vec<FdOp> = Vec::new();
    redirect(&mut ops, stdin, STDIN_FILENO);
    redirect(&mut ops, stdout, STDOUT_FILENO);
    redirect(&mut ops, stderr, STDERR_FILENO);
    assert(ops@ =~= child_setup(stdin, stdout, stderr));
    ops
}

/// Lists what the parent does to its descriptors after the fork.
pub fn parent_descriptors(stdin: Option<i32>, stdout: Option<i32>, stderr: Option<i32>) -> (r: Vec<
    FdOp,
>)
    ensures
        r@ == parent_cleanup(stdin, stdout, stderr),
{
    let mut ops: Vec<FdOp> = Vec::new();
    release(&mut ops, stdin);
    release(&mut ops, stdout);
    release(&mut ops, stderr);
    assert(ops@ =~= parent_cleanup(stdin, stdout, stderr));
    ops
}

/// What a child that could not start its program leaves behind: one line on
/// the error stream and the exit status one.
pub fn exec_failure(reason: &str) -> (r: (String, i32))
    ensures
        r.0@ == "ion: command exec: "@ + reason@,
        r.1 == 1,
{
    let mut line = String::new();
    line.append("ion: command exec: ");
    line.append(reason);
    assert(line@ =~= "ion: command exec: "@ + reason@);
    (line, 1)
}

/// Whether the name of a program says where the program is: it holds a `/`
/// or, for a scheme, a `:`.
pub open spec fn is_located(prog: Seq<char>) -> bool {
    exists|i: int| 0 <= i < prog.len() && (#[trigger] prog[i] == '/' || prog[i] == ':')
}

/// The length of the run at the front of `s` that does not hold `sep`.
pub open spec fn run_before(s: Seq<char>, sep: char) -> nat
    decreases s.len(),
{
    if s.len() == 0 || s[0] == sep {
        0
    } else {
        1 + run_before(s.drop_first(), sep)
    }
}

/// The pieces of `s` between the occurrences of `sep`: one more than there
/// are separators, empty pieces included.
pub open spec fn split(s: Seq<char>, sep: char) -> Seq<Seq<char>>
    decreases s.len(),
{
    let n = run_before(s, sep);
    if n >= s.len() {
        seq![s]
    } else {
        seq![s.take(n as int)] + split(s.skip(n as int + 1), sep)
    }
}

/// The path of `prog` in the directory `dir`: the two joined by one `/`,
/// unless the directory is empty or ends in one.
pub open spec fn located_in(dir: Seq<char>, prog: Seq<char>) -> Seq<char> {
    if dir.len() == 0 || dir.last() == '/' {
        dir + prog
    } else {
        dir + seq!['/'] + prog
    }
}

/// Where a program is looked for.
#[derive(Debug)]
pub enum Lookup {
    /// At this path and nowhere else.
    At(String),
    /// At these paths in turn; the first that exists is the program.
    Among(Vec<String>),
    /// Nowhere: the program cannot be found.
    Nowhere,
}

/// Where a program is looked for, as plain values.
pub enum LookupView {
    At(Seq<char>),
    Among(Seq<Seq<char>>),
    Nowhere,
}

impl View for Lookup {
    type V = LookupView;

    open spec fn view(&self) -> LookupView {
        match self {
            Lookup::At(path) => LookupView::At(path@),
            Lookup::Among(paths) => LookupView::Among(texts(paths@)),
            Lookup::Nowhere => LookupView::Nowhere,
        }
    }
}

/// Where a program is looked for: a name that says where the program is
/// stands for itself; any other name is looked for in each directory of the
/// search list in turn; without a search list it is not looked for at all.
pub open spec fn lookup_of(prog: Seq<char>, search_list: Option<Seq<char>>) -> LookupView {
    if is_located(prog) {
        LookupView::At(prog)
    } else {
        match search_list {
            Some(list) => LookupView::Among(
                split(list, PATH_SEPARATOR).map_values(|dir| located_in(dir, prog)),
            ),
            None => LookupView::Nowhere,
        }
    }
}

/// Tells whether the name of a program says where the program is.
pub fn located(prog: &str) -> (r: bool)
    ensures
        r == is_located(prog@),
{
    let v = chars_of(prog);
    let mut i: usize = 0;
    while i < v.len()
        invariant
            i <= v.len(),
            v@ == prog@,
            forall|j: int| 0 <= j < i ==> !(#[trigger] v@[j] == '/' || v@[j] == ':'),
        decreases v.len() - i,
    {
        if v[i] == '/' || v[i] == ':' {
            return true;
        }
        i += 1;
    }
    false
}

/// Splits a search list into its directories.
pub fn split_paths(list: &str) -> (r: Vec<String>)
    ensures
        texts(r@) == split(list@, PATH_SEPARATOR),
{
    let v = chars_of(list);
    let mut out: Vec<String> = Vec::new();
    let mut start: usize = 0;
    let mut i: usize = 0;
    assert(v@.skip(0) =~= v@);
    assert(texts(out@) =~= Seq::<Seq<char>>::empty());
    while i < v.len()
        invariant
            start <= i <= v.len(),
            v@ == list@,
            texts(out@) + split(v@.skip(start as int), PATH_SEPARATOR) == split(
                v@,
                PATH_SEPARATOR,
            ),
            run_before(v@.skip(start as int), PATH_SEPARATOR) == (i - start) + run_before(
                v@.skip(i as int),
                PATH_SEPARATOR,
            ),
        decreases v.len() - i,
    {
        let ghost rest = v@.skip(start as int);
        assert(v@.skip(i as int).drop_first() =~= v@.skip(i + 1));
        if v[i] == PATH_SEPARATOR {
            let piece = string_of_range(&v, start, i);
            proof {
                let n = run_before(rest, PATH_SEPARATOR);
                assert(n == i - start);
                assert(rest.take(n as int) =~= v@.subrange(start as int, i as int));
                assert(rest.skip(n as int + 1) =~= v@.skip(i + 1));
                assert(texts(out@.push(piece)) =~= texts(out@) + seq![piece@]);
                assert(split(rest, PATH_SEPARATOR) == seq![rest.take(n as int)] + split(
                    rest.skip(n as int + 1),
                    PATH_SEPARATOR,
                ));
                assert(texts(out@.push(piece)) + split(v@.skip(i + 1), PATH_SEPARATOR) =~= texts(
                    out@,
                ) + split(rest, PATH_SEPARATOR));
            }
            out.push(piece);
            start = i + 1;
        }
        i += 1;
    }
    let piece = string_of_range(&v, start, v.len());
    proof {
        let rest = v@.skip(start as int);
        assert(v@.skip(i as int) =~= Seq::<char>::empty());
        assert(run_before(rest, PATH_SEPARATOR) == rest.len());
        assert(rest =~= v@.subrange(start as int, v.len() as int));
        assert(texts(out@.push(piece)) =~= texts(out@) + seq![piece@]);
    }
    out.push(piece);
    out
}

/// Writes the path of `prog` in the directory `dir`.
pub fn path_in(dir: &str, prog: &str) -> (r: String)
    ensures
        r@ == located_in(dir@, prog@),
{
    let d = chars_of(dir);
    let mut path = String::new();
    path.append(dir);
    if d.len() > 0 && d[d.len() - 1] != '/' {
        path.push('/');
    }
    path.append(prog);
    assert(path@ =~= located_in(dir@, prog@));
    path
}

/// Decides where a program is looked for, from its name and the search list of
/// the environment, where there is one.
pub fn lookup(prog: &str, search_list: Option<&str>) -> (r: Lookup)
    ensures
        r@ == lookup_of(prog@, option_str(search_list)),
{
    if located(prog) {
        return Lookup::At(prog.to_owned());
    }
    match search_list {
        Some(list) => {
            let dirs = split_paths(list);
            let ghost wanted = split(list@, PATH_SEPARATOR).map_values(
                |dir| located_in(dir, prog@),
            );
            let mut paths: Vec<String> = Vec::new();
            let mut i: usize = 0;
            while i < dirs.len()
                invariant
                    i <= dirs.len(),
                    texts(dirs@) == split(list@, PATH_SEPARATOR),
                    wanted == split(list@, PATH_SEPARATOR).map_values(
                        |dir| located_in(dir, prog@),
                    ),
                    texts(paths@) =~= wanted.take(i as int),
                decreases dirs.len() - i,
            {
                let path = path_in(dirs[i].as_str(), prog);
                proof {
                    assert(texts(dirs@)[i as int] == dirs@[i as int]@);
                    assert(texts(paths@.push(path)) =~= texts(paths@).push(path@));
                }
                paths.push(path);
                i += 1;
            }
            assert(wanted.take(i as int) =~= wanted);
            Lookup::Among(paths)
        },
        None => Lookup::Nowhere,
    }
}

/// The text of an optional string slice.
pub open spec fn option_str(s: Option<&str>) -> Option<Seq<char>> {
    match s {
        Some(s) => Some(s@),
        None => None,
    }
}

/// Picks the candidate that is the program, where `exists[i]` tells whether
/// candidate `i` exists: the first that does. Where none exists the program is
/// not found.
pub fn choose_existing(exists: &Vec<bool>) -> (r: Result<usize, LaunchError>)
    ensures
        r matches Ok(i) ==> i < exists@.len() && exists@[i as int] && forall|j: int|
            0 <= j < i ==> !exists@[j],
        r matches Err(e) ==> e == LaunchError::NotFound && !exists@.contains(true),
{
    let mut i: usize = 0;
    while i < exists.len()
        invariant
            i <= exists.len(),
            forall|j: int| 0 <= j < i ==> !exists@[j],
        decreases exists.len() - i,
    {
        if exists[i] {
            return Ok(i);
        }
        i += 1;
    }
    Err(LaunchError::NotFound)
}

/// Whether a file starts with an interpreter directive: its first two bytes
/// are `#!`.
pub open spec fn has_directive(header: Seq<u8>) -> bool {
    header.len() >= 2 && header[0] == 0x23 && header[1] == 0x21
}

/// Tells whether a file starts with an interpreter directive, from the bytes
/// at its start.
pub fn starts_with_directive(header: &Vec<u8>) -> (r: bool)
    ensures
        r == has_directive(header@),
{
    header.len() >= 2 && header[0] == 0x23 && header[1] == 0x21
}

/// The permission bits of a file that hold for a user: those of the owner
/// where the user owns the file, else those of the group where the group of
/// the user is that of the file, else those of everybody else.
pub open spec fn permissions_for(uid: u32, gid: u32, owner: u32, group: u32, mode: u32) -> u32 {
    if uid == owner {
        (mode >> 6) & 0o7
    } else if gid == group {
        (mode >> 3) & 0o7
    } else {
        mode & 0o7
    }
}

/// Whether the user may execute the file.
pub open spec fn may_execute(uid: u32, gid: u32, owner: u32, group: u32, mode: u32) -> bool {
    permissions_for(uid, gid, owner, group, mode) & 0o1 != 0
}

/// Checks that a file with an interpreter directive may be executed by the
/// user: the operating system will only be shown the interpreter.
pub fn check_directive(uid: u32, gid: u32, owner: u32, group: u32, mode: u32) -> (r: Result<
    (),
    LaunchError,
>)
    ensures
        r is Ok <==> may_execute(uid, gid, owner, group, mode),
        r matches Err(e) ==> e == LaunchError::PermissionDenied,
{
    let bits: u32 = if uid == owner {
        (mode >> 6) & 0o7
    } else if gid == group {
        (mode >> 3) & 0o7
    } else {
        mode & 0o7
    };
    if bits & 0o1 == 0 {
        Err(LaunchError::PermissionDenied)
    } else {
        Ok(())
    }
}

/// The path of the interpreter that a directive names: what follows `#!` on
/// the first line, without the line feed that ends the line.
pub open spec fn interpreter_of(line: Seq<u8>) -> Seq<u8> {
    if line.len() > 0 && line.last() == 0x0a {
        line.drop_last()
    } else {
        line
    }
}

/// Cuts the line feed off the line that names the interpreter.
pub fn interpreter(line: Vec<u8>) -> (r: Vec<u8>)
    ensures
        r@ == interpreter_of(line@),
{
    let mut line = line;
    if line.len() > 0 && line[line.len() - 1] == 0x0a {
        line.pop();
    }
    line
}

/// The arguments that the new image is given: the interpreter first, where
/// there is one, then the path of the program, then the arguments of the
/// command.
pub open spec fn exec_arguments(
    interpreter: Option<Seq<u8>>,
    prog: Seq<u8>,
    args: Seq<Seq<u8>>,
) -> Seq<Seq<u8>> {
    match interpreter {
        Some(path) => seq![path, prog] + args,
        None => seq![prog] + args,
    }
}

/// The views of a list of byte strings.
pub open spec fn byte_views(v: Seq<Vec<u8>>) -> Seq<Seq<u8>> {
    v.map_values(|b: Vec<u8>| b@)
}

/// The view of an optional byte string.
pub open spec fn option_bytes(b: Option<Vec<u8>>) -> Option<Seq<u8>> {
    match b {
        Some(b) => Some(b@),
        None => None,
    }
}

/// Lists the arguments that the new image is given.
pub fn arguments(interpreter: Option<Vec<u8>>, prog: Vec<u8>, args: Vec<Vec<u8>>) -> (r: Vec<
    Vec<u8>,
>)
    ensures
        byte_views(r@) == exec_arguments(option_bytes(interpreter), prog@, byte_views(args@)),
{
    let mut out: Vec<Vec<u8>> = Vec::new();
    let mut args = args;
    let ghost given = args@;
    match interpreter {
        Some(path) => {
            out.push(path);
            out.push(prog);
            out.append(&mut args);
            assert(byte_views(out@) =~= seq![path@, prog@] + byte_views(given));
        },
        None => {
            out.push(prog);
            out.append(&mut args);
            assert(byte_views(out@) =~= seq![prog@] + byte_views(given));
        },
    }
    out
}

/// The environment that the new image is given: nothing where the
/// environment is to be cleared, else every variable as its name, `=` and its
/// value.
pub open spec fn exec_environment(vars: Seq<(String, String)>, clear_env: bool) -> Seq<Seq<char>> {
    if clear_env {
        Seq::empty()
    } else {
        vars.map_values(|var: (String, String)| var.0@ + seq!['='] + var.1@)
    }
}

/// Lists the environment that the new image is given.
pub fn environment(vars: &Vec<(String, String)>, clear_env: bool) -> (r: Vec<String>)
    ensures
        texts(r@) == exec_environment(vars@, clear_env),
{
    let mut out: Vec<String> = Vec::new();
    if clear_env {
        assert(texts(out@) =~= Seq::<Seq<char>>::empty());
        return out;
    }
    let mut i: usize = 0;
    while i < vars.len()
        invariant
            i <= vars.len(),
            !clear_env,
            texts(out@) =~= exec_environment(vars@, clear_env).take(i as int),
        decreases vars.len() - i,
    {
        let mut entry = vars[i].0.clone();
        entry.push('=');
        entry.append(vars[i].1.as_str());
        proof {
            assert(entry@ =~= vars@[i as int].0@ + seq!['='] + vars@[i as int].1@);
            assert(texts(out@.push(entry)) =~= texts(out@).push(entry@));
        }
        out.push(entry);
        i += 1;
    }
    assert(exec_environment(vars@, clear_env).take(i as int) =~= exec_environment(
        vars@,
        clear_env,
    ));
    out
}

} // verus!
