//! Launching: what the shell is asked to do, and whether it did it.

use vstd::prelude::*;

verus! {

/// The program that shows folders.
pub const EXPLORER: &'static str = "explorer.exe";

/// The verb that asks for elevation.
pub const RUN_AS: &'static str = "runas";

/// A request to the shell.
#[derive(Debug)]
pub struct ShellRequest {
    /// The verb, where it is not the default one.
    pub operation: Option<&'static str>,
    pub file: String,
    pub params: Option<String>,
}

pub struct ShellView {
    pub operation: Option<Seq<char>>,
    pub file: Seq<char>,
    pub params: Option<Seq<char>>,
}

impl View for ShellRequest {
    type V = ShellView;

    open spec fn view(&self) -> ShellView {
        ShellView {
            operation: match self.operation {
                Some(o) => Some(o@),
                None => None,
            },
            file: self.file@,
            params: match self.params {
                Some(p) => Some(p@),
                None => None,
            },
        }
    }
}

/// Empty parameters are no parameters.
pub open spec fn some_text(s: Seq<char>) -> Option<Seq<char>> {
    if s.len() > 0 {
        Some(s)
    } else {
        None
    }
}

/// `None` for an empty text.
pub fn non_empty(s: &str) -> (r: Option<&str>)
    ensures
        match some_text(s@) {
            Some(t) => r matches Some(v) && v@ == t,
            None => r is None,
        },
{
    if s.is_empty() {
        None
    } else {
        Some(s)
    }
}

pub open spec fn open_request(target: Seq<char>) -> ShellView {
    ShellView { operation: None, file: target, params: None }
}

pub open spec fn args_request(target: Seq<char>, args: Seq<char>) -> ShellView {
    ShellView { operation: None, file: target, params: some_text(args) }
}

pub open spec fn elevated_request(target: Seq<char>, args: Seq<char>) -> ShellView {
    ShellView { operation: Some(RUN_AS@), file: target, params: some_text(args) }
}

pub open spec fn folder_request(path: Seq<char>) -> ShellView {
    ShellView {
        operation: None,
        file: EXPLORER@,
        params: Some("/select,\""@ + path + "\""@),
    }
}

fn owned(s: Option<&str>) -> (r: Option<String>)
    ensures
        match s {
            Some(t) => r matches Some(v) && v@ == t@,
            None => r is None,
        },
{
    match s {
        Some(t) => Some(t.to_owned()),
        None => None,
    }
}

/// Opens a path, a shortcut, a URI or the like: the shell tells them apart.
pub fn open(target: &str) -> (r: ShellRequest)
    ensures
        r@ == open_request(target@),
{
    ShellRequest { operation: None, file: target.to_owned(), params: None }
}

/// Runs a target with arguments.
pub fn open_with_args(target: &str, args: &str) -> (r: ShellRequest)
    ensures
        r@ == args_request(target@, args@),
{
    ShellRequest { operation: None, file: target.to_owned(), params: owned(non_empty(args)) }
}

/// Runs a target as administrator.
pub fn open_elevated(target: &str, args: &str) -> (r: ShellRequest)
    ensures
        r@ == elevated_request(target@, args@),
{
    ShellRequest {
        operation: Some(RUN_AS),
        file: target.to_owned(),
        params: owned(non_empty(args)),
    }
}

/// Shows the folder of a target, with the target selected.
pub fn open_containing_folder(path: &str) -> (r: ShellRequest)
    ensures
        r@ == folder_request(path@),
{
    let mut arg = "/select,\"".to_owned();
    arg.append(path);
    arg.append("\"");
    ShellRequest { operation: None, file: EXPLORER.to_owned(), params: Some(arg) }
}

/// Whether the shell's answer means success: it is a status code, and only one
/// above 32 does.
pub fn succeeded(code: usize) -> (r: bool)
    ensures
        r == (code > 32),
{
    code > 32
}

/// Running a target without arguments asks for the same as opening it.
pub proof fn law_no_args_is_open(target: Seq<char>)
    ensures
        args_request(target, Seq::empty()) == open_request(target),
{
}

/// What the shell is asked for. Opening names the target alone; arguments go along
/// where there are any; only running as administrator has a verb; and a folder is shown
/// by the program for it, with the target selected.
pub proof fn law_requests_name_their_target(target: Seq<char>, args: Seq<char>)
    ensures
        open_request(target) == (ShellView { operation: None, file: target, params: None }),
        args.len() > 0 ==> args_request(target, args) == (ShellView {
            operation: None,
            file: target,
            params: Some(args),
        }),
        args.len() == 0 ==> args_request(target, args) == open_request(target),
        elevated_request(target, args) == (ShellView {
            operation: Some("runas"@),
            ..args_request(target, args)
        }),
        folder_request(target) == (ShellView {
            operation: None,
            file: "explorer.exe"@,
            params: Some("/select,\""@ + target + "\""@),
        }),
{
}

/// A request is what its fields hold.
pub proof fn law_request_is_its_fields(r: ShellRequest)
    ensures
        r@.file == r.file@,
        r.operation is None <==> r@.operation is None,
        r.operation matches Some(o) ==> r@.operation == Some(o@),
        r.params is None <==> r@.params is None,
        r.params matches Some(p) ==> r@.params == Some(p@),
{
}

} // verus!
