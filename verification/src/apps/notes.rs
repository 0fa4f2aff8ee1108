//! The notes app: notes are files in the current directory, created with
//! `new <name>` and a text typed line by line, listed with `list` and shown
//! with `read <name>`.
use vstd::prelude::*;
use crate::fs::{
    con_here_spec, con_spec, cre_spec, first_named, write_file_spec, Vfs, VfsError, VfsView,
};
use crate::text::{
    chars_of, concat_str, is_white, lines, lines_from, push_char, str_eq, string_from_range,
    strings_view, strip_cr, trim, trim_start, trim_string,
};

verus! {

/// `s` with the prefix `p` removed, if it starts with it.
pub open spec fn strip_prefix_spec(s: Seq<char>, p: Seq<char>) -> Option<Seq<char>> {
    if s.len() >= p.len() && s.take(p.len() as int) == p {
        Some(s.skip(p.len() as int))
    } else {
        None
    }
}

/// `s` with the prefix `p` removed, if it starts with it (`str::strip_prefix`).
pub fn strip_prefix(s: &str, p: &str) -> (r: Option<String>)
    ensures
        r matches Some(x) ==> strip_prefix_spec(s@, p@) == Some(x@),
        r is None ==> strip_prefix_spec(s@, p@) is None,
{
    let cs = chars_of(s);
    let ps = chars_of(p);
    if cs.len() < ps.len() {
        return None;
    }
    let mut i: usize = 0;
    while i < ps.len()
        invariant
            cs@ == s@,
            ps@ == p@,
            ps.len() <= cs.len(),
            i <= ps.len(),
            cs@.take(i as int) == ps@.take(i as int),
        decreases ps.len() - i,
    {
        if cs[i] != ps[i] {
            assert(cs@.take(ps.len() as int)[i as int] != ps@[i as int]);
            return None;
        }
        assert(cs@.take(i + 1) =~= cs@.take(i as int).push(cs@[i as int]));
        assert(ps@.take(i + 1) =~= ps@.take(i as int).push(ps@[i as int]));
        i = i + 1;
    }
    assert(ps@.take(ps.len() as int) =~= ps@);
    assert(cs@.skip(ps.len() as int) =~= cs@.subrange(ps.len() as int, cs.len() as int));
    Some(string_from_range(&cs, ps.len(), cs.len()))
}

/// A notes session: reading commands, or writing the text of a new note.
pub struct NotesSession {
    writing: Option<(String, String)>,
}

/// The abstract state of a session: the note being written, by name and
/// text so far, if any.
pub struct NotesView {
    pub writing: Option<(Seq<char>, Seq<char>)>,
}

impl View for NotesSession {
    type V = NotesView;

    closed spec fn view(&self) -> NotesView {
        NotesView {
            writing: match self.writing {
                Some((n, c)) => Some((n@, c@)),
                None => None,
            },
        }
    }
}

/// The answer to a line: what to print and whether the app closes.
pub struct NotesReply {
    pub lines: Vec<String>,
    pub closed: bool,
}

/// The lines `list` prints for the names here.
pub open spec fn list_lines(names: Seq<Seq<char>>) -> Seq<Seq<char>> {
    if names.len() == 0 {
        seq!["(no notes yet)"@]
    } else {
        names.map_values(|n: Seq<char>| "- "@ + n)
    }
}

/// The effect of one typed line: new session and filesystem states, the
/// printed lines, and whether the app closes.
pub open spec fn notes_spec(s: NotesView, v: VfsView, line: Seq<char>) -> (
    NotesView,
    VfsView,
    Seq<Seq<char>>,
    bool,
) {
    match s.writing {
        Some((name, content)) => if trim(line) == "."@ {
            (
                NotesView { writing: None },
                write_file_spec(v, name, content).0,
                seq!["Saved '"@ + name + "'."@],
                false,
            )
        } else {
            (NotesView { writing: Some((name, content + line + seq!['\n'])) }, v, seq![], false)
        },
        None => {
            let t = trim(line);
            if t == "exit"@ || t == "quit"@ {
                (s, v, seq!["Closing Notes."@], true)
            } else if t == "list"@ {
                (s, v, list_lines(con_here_spec(v)), false)
            } else if strip_prefix_spec(t, "new "@) is Some {
                let name = trim(strip_prefix_spec(t, "new "@)->0);
                match cre_spec(v, name, false).1 {
                    Ok(_) => (
                        NotesView { writing: Some((name, seq![])) },
                        cre_spec(v, name, false).0,
                        seq!["Type your note. Finish with a line containing only '.'"@],
                        false,
                    ),
                    Err(_) => (
                        s,
                        v,
                        seq!["Couldn't create '"@ + name + "' (does it already exist?)"@],
                        false,
                    ),
                }
            } else if strip_prefix_spec(t, "read "@) is Some {
                let name = trim(strip_prefix_spec(t, "read "@)->0);
                match con_spec(v, name) {
                    Ok(lines) => (s, v, lines, false),
                    Err(_) => (s, v, seq!["No note called '"@ + name + "'."@], false),
                }
            } else {
                (s, v, seq!["Unknown command. Try: new <name>, list, read <name>, exit"@], false)
            }
        },
    }
}

/// A `String` holding `a` followed by `b` and `c`.
fn joined3(a: &str, b: &str, c: &str) -> (r: String)
    ensures
        r@ == a@ + b@ + c@,
{
    let mut s = a.to_owned();
    s.append(b);
    s.append(c);
    s
}

impl NotesSession {
    /// A session waiting for a command.
    pub fn new() -> (r: NotesSession)
        ensures
            r@.writing is None,
    {
        NotesSession { writing: None }
    }

    /// A note's text is being typed (no prompt is shown then).
    pub fn is_writing(&self) -> (r: bool)
        ensures
            r == self@.writing is Some,
    {
        self.writing.is_some()
    }

    /// Handles one typed line.
    pub fn handle(&mut self, vfs: &mut Vfs, line: &str) -> (r: NotesReply)
        requires
            old(vfs)@.wf(),
        ensures
            (final(self)@, final(vfs)@, strings_view(r.lines@), r.closed) == notes_spec(
                old(self)@,
                old(vfs)@,
                line@,
            ),
            final(vfs)@.wf(),
    {
        match self.writing.take() {
            Some((name, content)) => {
                let t = trim_string(line);
                if str_eq(t.as_str(), ".") {
                    let _ = vfs.write_file(name.as_str(), content.as_str());
                    let lines = vec![joined3("Saved '", name.as_str(), "'.")];
                    assert(strings_view(lines@) =~= seq!["Saved '"@ + name@ + "'."@]);
                    NotesReply { lines, closed: false }
                } else {
                    let mut c = content;
                    c.append(line);
                    push_char(&mut c, '\n');
                    assert(c@ =~= content@ + line@ + seq!['\n']);
                    self.writing = Some((name, c));
                    let lines: Vec<String> = Vec::new();
                    assert(strings_view(lines@) =~= Seq::<Seq<char>>::empty());
                    NotesReply { lines, closed: false }
                }
            },
            None => {
                let t = trim_string(line);
                if str_eq(t.as_str(), "exit") || str_eq(t.as_str(), "quit") {
                    let lines = vec!["Closing Notes.".to_owned()];
                    assert(strings_view(lines@) =~= seq!["Closing Notes."@]);
                    return NotesReply { lines, closed: true };
                }
                if str_eq(t.as_str(), "list") {
                    let items = vfs.con_here();
                    let mut lines: Vec<String> = Vec::new();
                    if items.len() == 0 {
                        lines.push("(no notes yet)".to_owned());
                        assert(strings_view(lines@) =~= seq!["(no notes yet)"@]);
                    } else {
                        let mut i: usize = 0;
                        while i < items.len()
                            invariant
                                i <= items.len(),
                                strings_view(lines@) =~= strings_view(items@).map_values(
                                    |n: Seq<char>| "- "@ + n,
                                ).take(i as int),
                            decreases items.len() - i,
                        {
                            let ghost before = lines@;
                            lines.push(concat_str("- ", items[i].as_str()));
                            assert(strings_view(lines@) =~= strings_view(before).push(
                                "- "@ + items@[i as int]@,
                            ));
                            assert(strings_view(items@).map_values(|n: Seq<char>| "- "@ + n).take(
                                i + 1,
                            ) =~= strings_view(items@).map_values(|n: Seq<char>| "- "@ + n).take(
                                i as int,
                            ).push("- "@ + items@[i as int]@));
                            i = i + 1;
                        }
                        assert(strings_view(items@).map_values(|n: Seq<char>| "- "@ + n).take(
                            items.len() as int,
                        ) =~= strings_view(items@).map_values(|n: Seq<char>| "- "@ + n));
                    }
                    return NotesReply { lines, closed: false };
                }
                match strip_prefix(t.as_str(), "new ") {
                    Some(rest) => {
                        let name = trim_string(rest.as_str());
                        match vfs.cre(name.as_str(), false) {
                            Ok(()) => {
                                let lines = vec![
                                    "Type your note. Finish with a line containing only '.'".to_owned(),
                                ];
                                assert(strings_view(lines@) =~= seq![
                                    "Type your note. Finish with a line containing only '.'"@,
                                ]);
                                self.writing = Some((name, String::new()));
                                NotesReply { lines, closed: false }
                            },
                            Err(_) => {
                                let lines = vec![
                                    joined3(
                                        "Couldn't create '",
                                        name.as_str(),
                                        "' (does it already exist?)",
                                    ),
                                ];
                                assert(strings_view(lines@) =~= seq![
                                    "Couldn't create '"@ + name@ + "' (does it already exist?)"@,
                                ]);
                                NotesReply { lines, closed: false }
                            },
                        }
                    },
                    None => match strip_prefix(t.as_str(), "read ") {
                        Some(rest) => {
                            let name = trim_string(rest.as_str());
                            match vfs.con(name.as_str()) {
                                Ok(lines) => NotesReply { lines, closed: false },
                                Err(_) => {
                                    let lines = vec![
                                        joined3("No note called '", name.as_str(), "'."),
                                    ];
                                    assert(strings_view(lines@) =~= seq![
                                        "No note called '"@ + name@ + "'."@,
                                    ]);
                                    NotesReply { lines, closed: false }
                                },
                            }
                        },
                        None => {
                            let lines = vec![
                                "Unknown command. Try: new <name>, list, read <name>, exit".to_owned(),
                            ];
                            assert(strings_view(lines@) =~= seq![
                                "Unknown command. Try: new <name>, list, read <name>, exit"@,
                            ]);
                            NotesReply { lines, closed: false }
                        },
                    },
                }
            },
        }
    }
}

/// The session and filesystem after typing the lines `ls` one by one.
pub open spec fn feed(s: NotesView, v: VfsView, ls: Seq<Seq<char>>) -> (NotesView, VfsView)
    decreases ls.len(),
{
    if ls.len() == 0 {
        (s, v)
    } else {
        let r = notes_spec(s, v, ls[0]);
        feed(r.0, r.1, ls.drop_first())
    }
}

/// The text of a note typed as the lines `ls`: each line and a newline.
pub open spec fn note_text(ls: Seq<Seq<char>>) -> Seq<char>
    decreases ls.len(),
{
    if ls.len() == 0 {
        seq![]
    } else {
        ls[0] + seq!['\n'] + note_text(ls.drop_first())
    }
}

/// A line as the keyboard can type it into a note: no newline, no trailing
/// carriage return, and not the line `.` that ends the note.
pub open spec fn plain_line(l: Seq<char>) -> bool {
    &&& !l.contains('\n')
    &&& !(l.len() > 0 && l.last() == '\r')
    &&& trim(l) != "."@
}

proof fn lemma_feed_push(s: NotesView, v: VfsView, ls: Seq<Seq<char>>, x: Seq<char>)
    ensures
        feed(s, v, ls.push(x)) == ({
            let f = feed(s, v, ls);
            let r = notes_spec(f.0, f.1, x);
            (r.0, r.1)
        }),
    decreases ls.len(),
{
    if ls.len() > 0 {
        let r = notes_spec(s, v, ls[0]);
        assert(ls.push(x)[0] == ls[0]);
        assert(ls.push(x).drop_first() =~= ls.drop_first().push(x));
        assert(feed(s, v, ls.push(x)) === feed(r.0, r.1, ls.drop_first().push(x)));
        assert(feed(s, v, ls) === feed(r.0, r.1, ls.drop_first()));
        lemma_feed_push(r.0, r.1, ls.drop_first(), x);
    } else {
        let r = notes_spec(s, v, x);
        assert(ls.push(x)[0] == x);
        assert(ls.push(x).drop_first() =~= Seq::<Seq<char>>::empty());
        assert(feed(s, v, ls.push(x)) === feed(r.0, r.1, Seq::<Seq<char>>::empty()));
        assert(feed(r.0, r.1, Seq::<Seq<char>>::empty()) === (r.0, r.1));
        assert(feed(s, v, ls) === (s, v));
    }
}

proof fn lemma_feed_writing(name: Seq<char>, c0: Seq<char>, v: VfsView, ls: Seq<Seq<char>>)
    requires
        forall|i: int| 0 <= i < ls.len() ==> plain_line(#[trigger] ls[i]),
    ensures
        feed(NotesView { writing: Some((name, c0)) }, v, ls) == (
            NotesView { writing: Some((name, c0 + note_text(ls))) },
            v,
        ),
    decreases ls.len(),
{
    if ls.len() == 0 {
        assert(c0 + note_text(ls) =~= c0);
    } else {
        assert(plain_line(ls[0]));
        let c1 = c0 + ls[0] + seq!['\n'];
        assert forall|i: int| 0 <= i < ls.drop_first().len() implies plain_line(
            #[trigger] ls.drop_first()[i],
        ) by {
            assert(ls.drop_first()[i] == ls[i + 1]);
        }
        lemma_feed_writing(name, c1, v, ls.drop_first());
        assert(c1 + note_text(ls.drop_first()) =~= c0 + note_text(ls));
    }
}

proof fn lemma_lines_from_line(l: Seq<char>, rest: Seq<char>, cur: Seq<char>)
    requires
        !l.contains('\n'),
    ensures
        lines_from(l + seq!['\n'] + rest, cur) == seq![strip_cr(cur + l)] + lines_from(rest, seq![]),
    decreases l.len(),
{
    if l.len() == 0 {
        let t = l + seq!['\n'] + rest;
        assert(t[0] == '\n');
        assert(t.drop_first() =~= rest);
        assert(cur + l =~= cur);
    } else {
        let t = l + seq!['\n'] + rest;
        assert(t[0] == l[0]);
        assert(t.drop_first() =~= l.drop_first() + seq!['\n'] + rest);
        assert(l[0] != '\n') by {
            if l[0] == '\n' {
                assert(l.contains('\n'));
            }
        }
        assert(!l.drop_first().contains('\n')) by {
            if l.drop_first().contains('\n') {
                let k = choose|k: int| 0 <= k < l.drop_first().len() && l.drop_first()[k] == '\n';
                assert(l[k + 1] == '\n');
            }
        }
        lemma_lines_from_line(l.drop_first(), rest, cur.push(l[0]));
        assert(cur.push(l[0]) + l.drop_first() =~= cur + l);
    }
}

/// The lines of a note's text are the lines typed.
proof fn lemma_note_text_lines(ls: Seq<Seq<char>>)
    requires
        forall|i: int| 0 <= i < ls.len() ==> plain_line(#[trigger] ls[i]),
    ensures
        lines(note_text(ls)) == ls,
    decreases ls.len(),
{
    if ls.len() > 0 {
        assert(plain_line(ls[0]));
        assert forall|i: int| 0 <= i < ls.drop_first().len() implies plain_line(
            #[trigger] ls.drop_first()[i],
        ) by {
            assert(ls.drop_first()[i] == ls[i + 1]);
        }
        lemma_note_text_lines(ls.drop_first());
        lemma_lines_from_line(ls[0], note_text(ls.drop_first()), seq![]);
        assert(Seq::<char>::empty() + ls[0] =~= ls[0]);
        assert(seq![ls[0]] + ls.drop_first() =~= ls);
    }
}

/// A note written line by line and closed with `.` is read back with the
/// same lines: after `new <name>` opened it (an empty file `name` here),
/// typing `ls` and then `.` leaves a file whose `read` gives `ls`.
pub proof fn law_note_roundtrip(v: VfsView, name: Seq<char>, ls: Seq<Seq<char>>)
    requires
        v.wf(),
        first_named(v.here(), name) is Some,
        v.here()[first_named(v.here(), name)->0] is File,
        forall|i: int| 0 <= i < ls.len() ==> plain_line(#[trigger] ls[i]),
    ensures
        ({
            let f = feed(NotesView { writing: Some((name, seq![])) }, v, ls.push("."@));
            &&& f.0.writing is None
            &&& con_spec(f.1, name) == Ok::<Seq<Seq<char>>, VfsError>(ls)
        }),
{
    lemma_feed_writing(name, seq![], v, ls);
    lemma_feed_push(NotesView { writing: Some((name, seq![])) }, v, ls, "."@);
    reveal_strlit(".");
    assert(!is_white('.'));
    assert(trim_start("."@) == "."@);
    assert(trim("."@) == "."@) by {
        assert(trim_start("."@) == "."@);
    }
    let content = Seq::<char>::empty() + note_text(ls);
    assert(content =~= note_text(ls));
    crate::fs::law_write_then_con(v, name, content);
    lemma_note_text_lines(ls);
}

} // verus!
