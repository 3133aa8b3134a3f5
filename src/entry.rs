//! Journal entries on disk: one file per date, its name, its first contents, and the
//! text written from and read back into the editor's lines.
use crate::date::{date_text, CalendarDate};
use vstd::prelude::*;

verus! {

/// The name of the entry file of `d`: `<date>_entry.md`.
pub open spec fn entry_file_name_of(d: CalendarDate) -> Seq<char> {
    date_text(d) + "_entry.md"@
}

/// What a new entry file starts with: a heading line naming the date, then an empty line.
pub open spec fn new_entry_text_of(d: CalendarDate) -> Seq<char> {
    "# Daily Entry - 『"@ + date_text(d) + "』\n\n"@
}

/// Lines joined with `\n` between them.
pub open spec fn join_lines(ls: Seq<Seq<char>>) -> Seq<char>
    decreases ls.len(),
{
    if ls.len() == 0 {
        Seq::empty()
    } else if ls.len() == 1 {
        ls[0]
    } else {
        join_lines(ls.drop_last()) + seq!['\n'] + ls.last()
    }
}

/// The file text saved for a buffer: its lines joined, with a trailing newline.
pub open spec fn saved_text(ls: Seq<Seq<char>>) -> Seq<char> {
    join_lines(ls) + seq!['\n']
}

/// The pieces of `t` between `\n` characters (always at least one).
pub open spec fn split_on_newline(t: Seq<char>) -> Seq<Seq<char>>
    decreases t.len(),
{
    if t.len() == 0 {
        seq![Seq::empty()]
    } else {
        let p = split_on_newline(t.drop_last());
        if t.last() == '\n' {
            p.push(Seq::empty())
        } else {
            p.update(p.len() - 1, p.last().push(t.last()))
        }
    }
}

/// The lines of a file text: the pieces between newlines, where a final newline ends the
/// last line rather than starting another, and an empty text has no lines. Nothing but
/// the newline is removed, so a carriage return stays part of its line.
pub open spec fn text_lines(t: Seq<char>) -> Seq<Seq<char>> {
    if t.len() == 0 {
        Seq::empty()
    } else if t.last() == '\n' {
        split_on_newline(t.drop_last())
    } else {
        split_on_newline(t)
    }
}

/// No line holds a newline.
pub open spec fn single_lines(ls: Seq<Seq<char>>) -> bool {
    forall|i: int, j: int| 0 <= i < ls.len() && 0 <= j < ls[i].len() ==> #[trigger] ls[i][j] != '\n'
}

pub open spec fn line_views(ls: Seq<String>) -> Seq<Seq<char>> {
    ls.map_values(|l: String| l@)
}

/// The name of the entry file of `d`.
pub fn entry_file_name(d: CalendarDate) -> (r: String)
    requires
        d.wf(),
    ensures
        r@ == entry_file_name_of(d),
{
    let mut name = d.to_text();
    name.append("_entry.md");
    name
}

/// The text a new entry file of `d` is created with.
pub fn new_entry_text(d: CalendarDate) -> (r: String)
    requires
        d.wf(),
    ensures
        r@ == new_entry_text_of(d),
{
    let mut text = String::from_str("# Daily Entry - 『");
    let date = d.to_text();
    text.append(date.as_str());
    text.append("』\n\n");
    text
}

/// What is known of the path where an entry file belongs.
#[derive(Clone, Copy, Debug, PartialEq, Eq)]
pub enum EntryFileStatus {
    Missing,
    RegularFile,
    /// Something other than a regular file, such as a directory.
    NotAFile,
}

/// How to obtain the entry file.
#[derive(Debug, PartialEq, Eq)]
pub enum EntryOpen {
    /// Open the file for reading and writing, without truncating it.
    OpenExisting,
    /// Create the file with this text, and sync it before use.
    Create(String),
}

#[derive(Clone, Copy, Debug, PartialEq, Eq)]
pub enum EntryError {
    /// The path exists but is not a regular file.
    NotAFile,
}

/// Decides how to get the entry file of `d` from what is at its path: open an existing
/// file as it is, create a missing one with its heading, refuse anything else.
pub fn get_or_create(status: EntryFileStatus, d: CalendarDate) -> (r: Result<EntryOpen, EntryError>)
    requires
        d.wf(),
    ensures
        status == EntryFileStatus::RegularFile ==> r == Ok::<EntryOpen, EntryError>(
            EntryOpen::OpenExisting,
        ),
        status == EntryFileStatus::Missing ==> (r matches Ok(EntryOpen::Create(t)) && t@
            == new_entry_text_of(d)),
        status == EntryFileStatus::NotAFile ==> r == Err::<EntryOpen, EntryError>(
            EntryError::NotAFile,
        ),
{
    match status {
        EntryFileStatus::RegularFile => Ok(EntryOpen::OpenExisting),
        EntryFileStatus::Missing => Ok(EntryOpen::Create(new_entry_text(d))),
        EntryFileStatus::NotAFile => Err(EntryError::NotAFile),
    }
}

/// The file text for the editor's lines: joined with newlines, plus a final newline.
pub fn entry_text(lines: &Vec<String>) -> (r: String)
    ensures
        r@ == saved_text(line_views(lines@)),
{
    let ghost ls = line_views(lines@);
    let mut text = String::new();
    let mut i: usize = 0;
    proof {
        reveal_strlit("\n");
    }
    while i < lines.len()
        invariant
            i <= lines.len(),
            ls == line_views(lines@),
            text@ == join_lines(ls.subrange(0, i as int)),
            "\n"@ == seq!['\n'],
        decreases lines.len() - i,
    {
        if i > 0 {
            text.append("\n");
        }
        text.append(lines[i].as_str());
        i = i + 1;
        proof {
            let sub = ls.subrange(0, i as int);
            assert(sub.drop_last() =~= ls.subrange(0, i - 1));
            assert(text@ =~= join_lines(sub));
        }
    }
    text.append("\n");
    assert(ls.subrange(0, i as int) =~= ls);
    text
}

/// The lines of an entry file's text, as the editor shows them.
pub fn entry_lines(text: &str) -> (r: Vec<String>)
    ensures
        line_views(r@) == text_lines(text@),
{
    let n = text.unicode_len();
    let mut lines: Vec<String> = Vec::new();
    let ghost mut raw: Seq<Seq<char>> = Seq::empty();
    let mut start: usize = 0;
    let mut i: usize = 0;
    assert(text@.subrange(0, 0) =~= Seq::<char>::empty());
    assert(raw.push(text@.subrange(0, 0)) =~= seq![Seq::<char>::empty()]);
    assert(line_views(lines@) =~= raw);
    while i < n
        invariant
            n == text@.len(),
            start <= i <= n,
            raw.push(text@.subrange(start as int, i as int)) == split_on_newline(
                text@.subrange(0, i as int),
            ),
            line_views(lines@) == raw,
        decreases n - i,
    {
        let c = text.get_char(i);
        let ghost piece = text@.subrange(start as int, i as int);
        proof {
            assert(text@.subrange(0, i + 1).drop_last() =~= text@.subrange(0, i as int));
            assert(text@.subrange(0, i + 1).last() == c);
        }
        if c == '\n' {
            let ghost before = line_views(lines@);
            lines.push(String::from_str(text.substring_char(start, i)));
            proof {
                assert(line_views(lines@) =~= before.push(piece));
                raw = raw.push(piece);
            }
            start = i + 1;
            proof {
                assert(text@.subrange(start as int, i + 1) =~= Seq::<char>::empty());
            }
        } else {
            proof {
                assert(text@.subrange(start as int, i + 1) =~= piece.push(c));
                assert(raw.push(piece).update(raw.len() as int, piece.push(c)) =~= raw.push(
                    piece.push(c),
                ));
            }
        }
        i = i + 1;
    }
    assert(text@.subrange(0, n as int) =~= text@);
    if n == 0 {
        assert(line_views(lines@) =~= Seq::<Seq<char>>::empty());
        return lines;
    }
    let rest = text.substring_char(start, n);
    let ghost before = line_views(lines@);
    if rest.unicode_len() > 0 {
        proof {
            let t = text@;
            if t.last() == '\n' {
                let p = split_on_newline(t.drop_last());
                assert(split_on_newline(t).last() == raw.push(rest@).last());
                assert(p.push(Seq::<char>::empty()).last() == Seq::<char>::empty());
            }
        }
        lines.push(String::from_str(rest));
        assert(line_views(lines@) =~= before.push(rest@));
    } else {
        proof {
            let t = text@;
            let p = split_on_newline(t.drop_last());
            let e = Seq::<char>::empty();
            assert(rest@ =~= e);
            assert(t.last() == '\n') by {
                if t.last() != '\n' {
                    lemma_split_last(t);
                }
            }
            assert(raw.push(e) == p.push(e));
            assert(raw.push(e).drop_last() =~= raw);
            assert(p.push(e).drop_last() =~= p);
        }
    }
    lines
}

/// The last piece of a text that does not end in a newline is not empty.
proof fn lemma_split_last(t: Seq<char>)
    requires
        t.len() > 0,
        t.last() != '\n',
    ensures
        split_on_newline(t).last().len() > 0,
{
    lemma_split_nonempty(t.drop_last());
}

proof fn lemma_split_nonempty(t: Seq<char>)
    ensures
        split_on_newline(t).len() >= 1,
    decreases t.len(),
{
    if t.len() > 0 {
        lemma_split_nonempty(t.drop_last());
    }
}

/// A line without newlines splits to itself.
proof fn lemma_split_single(b: Seq<char>)
    requires
        forall|j: int| 0 <= j < b.len() ==> b[j] != '\n',
    ensures
        split_on_newline(b) == seq![b],
    decreases b.len(),
{
    if b.len() > 0 {
        assert(b[b.len() - 1] != '\n');
        assert(forall|j: int| 0 <= j < b.len() - 1 ==> b.drop_last()[j] == b[j]);
        lemma_split_single(b.drop_last());
        let p = split_on_newline(b.drop_last());
        assert(p == seq![b.drop_last()]);
        assert(b.last() != '\n');
        assert(split_on_newline(b) == p.update(p.len() - 1, p.last().push(b.last())));
        assert(b.drop_last().push(b.last()) =~= b);
        assert(p.update(0, b) =~= seq![b]);
    } else {
        assert(b =~= Seq::<char>::empty());
    }
}

/// Splitting after a newline: `a`, a newline, then a line `b`.
proof fn lemma_split_append(a: Seq<char>, b: Seq<char>)
    requires
        forall|j: int| 0 <= j < b.len() ==> b[j] != '\n',
    ensures
        split_on_newline(a + seq!['\n'] + b) == split_on_newline(a).push(b),
    decreases b.len(),
{
    let t = a + seq!['\n'] + b;
    if b.len() == 0 {
        assert(t.drop_last() =~= a);
        assert(t.last() == '\n');
        assert(split_on_newline(t) == split_on_newline(t.drop_last()).push(Seq::<char>::empty()));
        assert(b =~= Seq::<char>::empty());
    } else {
        assert(b[b.len() - 1] != '\n');
        assert(t.last() == b[b.len() - 1]);
        assert(forall|j: int| 0 <= j < b.len() - 1 ==> b.drop_last()[j] == b[j]);
        lemma_split_append(a, b.drop_last());
        assert(t.drop_last() =~= a + seq!['\n'] + b.drop_last());
        assert(b.drop_last().push(b.last()) =~= b);
        let p = split_on_newline(a).push(b.drop_last());
        assert(split_on_newline(t) == p.update(p.len() - 1, p.last().push(t.last())));
        assert(p.update(p.len() - 1, p.last().push(t.last())) =~= split_on_newline(a).push(b));
    }
}

proof fn lemma_split_join(ls: Seq<Seq<char>>)
    requires
        ls.len() >= 1,
        single_lines(ls),
    ensures
        split_on_newline(join_lines(ls)) == ls,
    decreases ls.len(),
{
    if ls.len() == 1 {
        assert(forall|j: int| 0 <= j < ls[0].len() ==> ls[0][j] != '\n');
        lemma_split_single(ls[0]);
        assert(seq![ls[0]] =~= ls);
    } else {
        let init = ls.drop_last();
        assert(single_lines(init)) by {
            assert forall|i: int, j: int| 0 <= i < init.len() && 0 <= j < init[i].len() implies #[trigger] init[i][j]
                != '\n' by {
                assert(init[i] == ls[i]);
            }
        }
        lemma_split_join(init);
        assert(forall|j: int| 0 <= j < ls.last().len() ==> ls.last()[j] != '\n');
        lemma_split_append(join_lines(init), ls.last());
        assert(init.push(ls.last()) =~= ls);
    }
}

/// Saving a buffer and loading the file back gives the same lines: the text written is
/// the lines with newlines between them and one at the end, and reading it back drops
/// exactly that final newline. A buffer always has at least one line, and no line of it
/// holds a newline.
pub proof fn lemma_save_load_round_trip(ls: Seq<Seq<char>>)
    requires
        ls.len() >= 1,
        single_lines(ls),
    ensures
        text_lines(saved_text(ls)) == ls,
{
    let t = saved_text(ls);
    assert(t.drop_last() =~= join_lines(ls));
    lemma_split_join(ls);
}

} // verus!
