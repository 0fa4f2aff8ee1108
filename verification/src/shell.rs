//! The shell's commands: `chd`, `cre`, `con`, `info` and `app`, each turned
//! into the filesystem change it makes and the lines it prints.
use vstd::prelude::*;
use crate::apps::{app_names, list};
use crate::fs::{
    chd_spec, con_here_spec, con_spec, cre_spec, info_spec, law_write_then_con, write_file_spec,
    Vfs, VfsError, VfsView,
};
use crate::text::{
    after_space, before_space, concat_str, lines, split_at_space, str_eq, strings_view, trim,
    trim_string,
};

verus! {

/// The command word of a line and its argument: the line is trimmed, split
/// at its first space, and the argument trimmed.
pub open spec fn command_of(line: Seq<char>) -> (Seq<char>, Seq<char>) {
    let t = trim(line);
    (before_space(t), trim(after_space(t)))
}

/// Splits a typed line into its command word and argument.
pub fn parse_command(line: &str) -> (r: (String, String))
    ensures
        (r.0@, r.1@) == command_of(line@),
{
    let t = trim_string(line);
    let (cmd, rest) = split_at_space(t.as_str());
    let arg = trim_string(rest.as_str());
    (cmd, arg)
}

/// Lines `chd` prints, and the new state.
pub open spec fn cmd_chd_spec(v: VfsView, arg: Seq<char>) -> (VfsView, Seq<Seq<char>>) {
    if arg.len() == 0 {
        (v, seq!["Usage: chd <folder>"@])
    } else {
        let (w, r) = chd_spec(v, arg);
        (
            w,
            match r {
                Ok(_) => seq![],
                Err(VfsError::NotFound) => seq!["No such folder: "@ + arg],
                Err(VfsError::NotADirectory) => seq!["Not a folder: "@ + arg],
                Err(_) => seq!["Couldn't change directory."@],
            },
        )
    }
}

/// `chd <folder>`: change directory.
pub fn cmd_chd(vfs: &mut Vfs, arg: &str) -> (r: Vec<String>)
    requires
        old(vfs)@.wf(),
    ensures
        (final(vfs)@, strings_view(r@)) == cmd_chd_spec(old(vfs)@, arg@),
        final(vfs)@.wf(),
{
    if arg.is_empty() {
        let r = vec!["Usage: chd <folder>".to_owned()];
        assert(strings_view(r@) =~= seq!["Usage: chd <folder>"@]);
        return r;
    }
    let r = match vfs.chd(arg) {
        Ok(()) => Vec::new(),
        Err(VfsError::NotFound) => vec![concat_str("No such folder: ", arg)],
        Err(VfsError::NotADirectory) => vec![concat_str("Not a folder: ", arg)],
        _ => vec!["Couldn't change directory.".to_owned()],
    };
    assert(strings_view(r@) =~= cmd_chd_spec(old(vfs)@, arg@).1);
    r
}

/// Lines `cre` prints, and the new state.
pub open spec fn cmd_cre_spec(v: VfsView, arg: Seq<char>) -> (VfsView, Seq<Seq<char>>) {
    let kind = before_space(arg);
    let name = trim(after_space(arg));
    let usage = seq!["Usage: cre file <name>  |  cre folder <name>"@];
    if name.len() == 0 {
        (v, usage)
    } else if kind == "folder"@ || kind == "dir"@ || kind == "file"@ {
        let is_dir = kind != "file"@;
        let (w, r) = cre_spec(v, name, is_dir);
        (
            w,
            match r {
                Ok(_) => seq!["Created "@ + kind + " '"@ + name + "'."@],
                Err(VfsError::AlreadyExists) => seq!["'"@ + name + "' already exists."@],
                Err(_) => seq!["Couldn't create '"@ + name + "'."@],
            },
        )
    } else {
        (v, usage)
    }
}

/// `cre file <name>` or `cre folder <name>` (also `cre dir <name>`):
/// create an empty file or folder here.
pub fn cmd_cre(vfs: &mut Vfs, arg: &str) -> (r: Vec<String>)
    requires
        old(vfs)@.wf(),
    ensures
        (final(vfs)@, strings_view(r@)) == cmd_cre_spec(old(vfs)@, arg@),
        final(vfs)@.wf(),
{
    let (kind, rest) = split_at_space(arg);
    let name = trim_string(rest.as_str());
    let usage = "Usage: cre file <name>  |  cre folder <name>";
    if name.as_str().is_empty() {
        let r = vec![usage.to_owned()];
        assert(strings_view(r@) =~= seq![usage@]);
        return r;
    }
    let is_folder = str_eq(kind.as_str(), "folder") || str_eq(kind.as_str(), "dir");
    let is_file = str_eq(kind.as_str(), "file");
    if !is_folder && !is_file {
        let r = vec![usage.to_owned()];
        assert(strings_view(r@) =~= seq![usage@]);
        return r;
    }
    let r = match vfs.cre(name.as_str(), is_folder) {
        Ok(()) => {
            let mut s = concat_str("Created ", kind.as_str());
            s.append(" '");
            s.append(name.as_str());
            s.append("'.");
            vec![s]
        },
        Err(VfsError::AlreadyExists) => {
            let mut s = concat_str("'", name.as_str());
            s.append("' already exists.");
            vec![s]
        },
        _ => {
            let mut s = concat_str("Couldn't create '", name.as_str());
            s.append("'.");
            vec![s]
        },
    };
    proof {
        if kind@ == "file"@ {
            assert(!(kind@ == "folder"@ || kind@ == "dir"@)) by {
                reveal_strlit("file");
                reveal_strlit("folder");
                reveal_strlit("dir");
                assert("file"@.len() != "folder"@.len());
                assert("file"@[0] != "dir"@[0]);
            }
        }
    }
    assert(strings_view(r@) =~= cmd_cre_spec(old(vfs)@, arg@).1);
    r
}

/// Lines `con` prints.
pub open spec fn cmd_con_spec(v: VfsView, arg: Seq<char>) -> Seq<Seq<char>> {
    if arg.len() == 0 {
        con_here_spec(v)
    } else {
        match con_spec(v, arg) {
            Ok(lines) => lines,
            Err(_) => seq!["No such file or folder: "@ + arg],
        }
    }
}

/// `con [<name>]`: show a file's lines or a folder's names; without a name,
/// list the current directory.
pub fn cmd_con(vfs: &mut Vfs, arg: &str) -> (r: Vec<String>)
    requires
        old(vfs)@.wf(),
    ensures
        *final(vfs) == *old(vfs),
        strings_view(r@) == cmd_con_spec(old(vfs)@, arg@),
{
    if arg.is_empty() {
        return vfs.con_here();
    }
    match vfs.con(arg) {
        Ok(lines) => lines,
        Err(_) => {
            let r = vec![concat_str("No such file or folder: ", arg)];
            assert(strings_view(r@) =~= seq!["No such file or folder: "@ + arg@]);
            r
        },
    }
}

/// Lines `info` prints.
pub open spec fn cmd_info_spec(v: VfsView, arg: Seq<char>) -> Seq<Seq<char>> {
    if arg.len() == 0 {
        seq!["Usage: info <name>"@]
    } else {
        match info_spec(v, arg) {
            Ok((kind, detail)) => seq![arg + ": "@ + kind + " ("@ + detail + ")"@],
            Err(_) => seq!["No such file or folder: "@ + arg],
        }
    }
}

/// `info <name>`: whether a name is a file or a folder, with its size.
pub fn cmd_info(vfs: &mut Vfs, arg: &str) -> (r: Vec<String>)
    requires
        old(vfs)@.wf(),
    ensures
        *final(vfs) == *old(vfs),
        strings_view(r@) == cmd_info_spec(old(vfs)@, arg@),
{
    if arg.is_empty() {
        let r = vec!["Usage: info <name>".to_owned()];
        assert(strings_view(r@) =~= seq!["Usage: info <name>"@]);
        return r;
    }
    let r = match vfs.info(arg) {
        Ok((kind, detail)) => {
            let mut s = concat_str(arg, ": ");
            s.append(kind.as_str());
            s.append(" (");
            s.append(detail.as_str());
            s.append(")");
            vec![s]
        },
        Err(_) => vec![concat_str("No such file or folder: ", arg)],
    };
    assert(strings_view(r@) =~= cmd_info_spec(old(vfs)@, arg@));
    r
}

/// Lines `app` prints without a name: the list of apps.
pub open spec fn app_list_lines() -> Seq<Seq<char>> {
    seq!["Built-in apps:"@] + app_names().map_values(|n: Seq<char>| "  - "@ + n) + seq![
        "Run one with: app <name>"@,
    ]
}

/// `app` without a name: the lines listing the built-in apps.
pub fn cmd_app_list() -> (r: Vec<String>)
    ensures
        strings_view(r@) == app_list_lines(),
{
    let names = list();
    let mut r: Vec<String> = Vec::new();
    r.push("Built-in apps:".to_owned());
    let mut i: usize = 0;
    while i < 4
        invariant
            i <= 4,
            names@.map_values(|s: &str| s@) == app_names(),
            strings_view(r@) =~= seq!["Built-in apps:"@] + app_names().map_values(
                |n: Seq<char>| "  - "@ + n,
            ).take(i as int),
        decreases 4 - i,
    {
        let ghost before = r@;
        assert(names@[i as int]@ == app_names()[i as int]);
        r.push(concat_str("  - ", names[i]));
        assert(strings_view(r@) =~= strings_view(before).push("  - "@ + app_names()[i as int]));
        assert(app_names().map_values(|n: Seq<char>| "  - "@ + n).take(i + 1) =~= app_names().map_values(
            |n: Seq<char>| "  - "@ + n,
        ).take(i as int).push("  - "@ + app_names()[i as int]));
        i = i + 1;
    }
    r.push("Run one with: app <name>".to_owned());
    assert(app_names().map_values(|n: Seq<char>| "  - "@ + n).take(4) =~= app_names().map_values(
        |n: Seq<char>| "  - "@ + n,
    ));
    assert(strings_view(r@) =~= app_list_lines());
    r
}

/// What a shell line does: the lines to print and, for `app <name>`, the
/// app name to launch.
pub struct ShellResponse {
    pub lines: Vec<String>,
    pub launch: Option<String>,
}

/// The effect of a shell line: new state, printed lines, app to launch.
pub open spec fn execute_spec(v: VfsView, line: Seq<char>) -> (VfsView, Seq<Seq<char>>, Option<
    Seq<char>,
>) {
    let (cmd, arg) = command_of(line);
    if cmd.len() == 0 {
        (v, seq![], None)
    } else if cmd == "chd"@ {
        let (w, out) = cmd_chd_spec(v, arg);
        (w, out, None)
    } else if cmd == "cre"@ {
        let (w, out) = cmd_cre_spec(v, arg);
        (w, out, None)
    } else if cmd == "con"@ {
        (v, cmd_con_spec(v, arg), None)
    } else if cmd == "info"@ {
        (v, cmd_info_spec(v, arg), None)
    } else if cmd == "app"@ {
        if arg.len() == 0 {
            (v, app_list_lines(), None)
        } else {
            (v, seq![], Some(arg))
        }
    } else {
        (v, seq!["Unknown command: '"@ + cmd + "'. Try chd, cre, con, info, app."@], None)
    }
}

/// Runs one typed shell line.
pub fn execute(vfs: &mut Vfs, line: &str) -> (r: ShellResponse)
    requires
        old(vfs)@.wf(),
    ensures
        (final(vfs)@, strings_view(r.lines@), match r.launch {
            Some(s) => Some(s@),
            None => None::<Seq<char>>,
        }) == execute_spec(old(vfs)@, line@),
        final(vfs)@.wf(),
{
    let (cmd, arg) = parse_command(line);
    let c = cmd.as_str();
    let a = arg.as_str();
    if c.is_empty() {
        let lines: Vec<String> = Vec::new();
        assert(strings_view(lines@) =~= Seq::<Seq<char>>::empty());
        ShellResponse { lines, launch: None }
    } else if str_eq(c, "chd") {
        ShellResponse { lines: cmd_chd(vfs, a), launch: None }
    } else if str_eq(c, "cre") {
        ShellResponse { lines: cmd_cre(vfs, a), launch: None }
    } else if str_eq(c, "con") {
        ShellResponse { lines: cmd_con(vfs, a), launch: None }
    } else if str_eq(c, "info") {
        ShellResponse { lines: cmd_info(vfs, a), launch: None }
    } else if str_eq(c, "app") {
        if a.is_empty() {
            ShellResponse { lines: cmd_app_list(), launch: None }
        } else {
            let lines: Vec<String> = Vec::new();
            assert(strings_view(lines@) =~= Seq::<Seq<char>>::empty());
            ShellResponse { lines, launch: Some(arg) }
        }
    } else {
        let mut s = concat_str("Unknown command: '", c);
        s.append("'. Try chd, cre, con, info, app.");
        let lines = vec![s];
        assert(strings_view(lines@) =~= seq![
            "Unknown command: '"@ + cmd@ + "'. Try chd, cre, con, info, app."@,
        ]);
        ShellResponse { lines, launch: None }
    }
}


/// The command words are told apart by their letters.
proof fn lemma_command_words_differ()
    ensures
        "chd"@ != "cre"@,
        "chd"@ != "con"@,
        "chd"@ != "info"@,
        "chd"@ != "app"@,
        "cre"@ != "con"@,
        "cre"@ != "info"@,
        "cre"@ != "app"@,
        "con"@ != "info"@,
        "con"@ != "app"@,
        "info"@ != "app"@,
        "chd"@.len() > 0,
        "cre"@.len() > 0,
        "con"@.len() > 0,
        "info"@.len() > 0,
        "app"@.len() > 0,
{
    reveal_strlit("chd");
    reveal_strlit("cre");
    reveal_strlit("con");
    reveal_strlit("info");
    reveal_strlit("app");
    assert("chd"@[1] != "cre"@[1]);
    assert("chd"@[1] != "con"@[1]);
    assert("chd"@.len() != "info"@.len());
    assert("chd"@[0] != "app"@[0]);
    assert("cre"@[1] != "con"@[1]);
    assert("cre"@.len() != "info"@.len());
    assert("cre"@[0] != "app"@[0]);
    assert("con"@.len() != "info"@.len());
    assert("con"@[0] != "app"@[0]);
    assert("info"@.len() != "app"@.len());
}

/// `con <name>` prints exactly what the filesystem's `con` gives for that
/// name (the lines of the file, or the names in the folder), or the
/// not-found message when there is nothing of that name; the filesystem is
/// left as it was and no app is launched.
pub proof fn law_shell_con_shows_named(v: VfsView, line: Seq<char>)
    requires
        command_of(line).0 == "con"@,
        command_of(line).1.len() > 0,
    ensures
        execute_spec(v, line) == (
            v,
            match con_spec(v, command_of(line).1) {
                Ok(ls) => ls,
                Err(_) => seq!["No such file or folder: "@ + command_of(line).1],
            },
            None::<Seq<char>>,
        ),
{
    lemma_command_words_differ();
}

/// What is written to a file, `con` with the file's name shows again, line
/// by line.
pub proof fn law_shell_con_after_write(v: VfsView, name: Seq<char>, content: Seq<char>, line: Seq<
    char,
>)
    requires
        v.wf(),
        write_file_spec(v, name, content).1 is Ok,
        command_of(line) == ("con"@, name),
        name.len() > 0,
    ensures
        execute_spec(write_file_spec(v, name, content).0, line) == (
            write_file_spec(v, name, content).0,
            lines(content),
            None::<Seq<char>>,
        ),
{
    law_write_then_con(v, name, content);
    law_shell_con_shows_named(write_file_spec(v, name, content).0, line);
}

/// Each command word runs its own operation on its argument: `chd` moves to
/// the named folder and prints nothing exactly when that succeeds; `info`
/// describes the named node and changes nothing; `cre file`, `cre folder`
/// and `cre dir` create the named file or folder; `app <name>` launches that
/// app and prints nothing, and `app` alone lists the apps; `con` alone
/// lists the current folder; an empty line does nothing, and any other word
/// is answered with the list of commands, changing nothing. None but `app`
/// launches anything.
pub proof fn law_shell_dispatch(v: VfsView, line: Seq<char>)
    ensures
        ({
            let (cmd, arg) = command_of(line);
            let r = execute_spec(v, line);
            &&& cmd != "app"@ ==> r.2 is None
            &&& cmd == "chd"@ && arg.len() > 0 ==> r.0 == chd_spec(v, arg).0 && (r.1.len() == 0
                <==> chd_spec(v, arg).1 is Ok)
            &&& cmd == "info"@ && arg.len() > 0 ==> r.0 == v && r.1 == match info_spec(v, arg) {
                Ok((kind, detail)) => seq![arg + ": "@ + kind + " ("@ + detail + ")"@],
                Err(_) => seq!["No such file or folder: "@ + arg],
            }
            &&& cmd == "cre"@ && trim(after_space(arg)).len() > 0 && before_space(arg) == "file"@
                ==> r.0 == cre_spec(v, trim(after_space(arg)), false).0
            &&& cmd == "cre"@ && trim(after_space(arg)).len() > 0 && (before_space(arg)
                == "folder"@ || before_space(arg) == "dir"@) ==> r.0 == cre_spec(
                v,
                trim(after_space(arg)),
                true,
            ).0
            &&& cmd == "app"@ && arg.len() > 0 ==> r == (v, Seq::<Seq<char>>::empty(), Some(arg))
            &&& cmd == "app"@ && arg.len() == 0 ==> r == (v, app_list_lines(), None::<Seq<char>>)
            &&& cmd == "con"@ && arg.len() == 0 ==> r == (v, con_here_spec(v), None::<Seq<char>>)
            &&& cmd.len() == 0 ==> r == (v, Seq::<Seq<char>>::empty(), None::<Seq<char>>)
            &&& cmd.len() > 0 && cmd != "chd"@ && cmd != "cre"@ && cmd != "con"@ && cmd != "info"@
                && cmd != "app"@ ==> r == (
                v,
                seq!["Unknown command: '"@ + cmd + "'. Try chd, cre, con, info, app."@],
                None::<Seq<char>>,
            )
        }),
{
    lemma_command_words_differ();
    reveal_strlit("file");
    reveal_strlit("folder");
    reveal_strlit("dir");
    assert("file"@ != "folder"@) by {
        assert("file"@.len() != "folder"@.len());
    }
    assert("file"@ != "dir"@) by {
        assert("file"@[0] != "dir"@[0]);
    }
}

} // verus!
