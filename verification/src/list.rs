//! The listing pipeline: entries, hidden-entry filtering, per-entry
//! formatting, sorting, and the list operation that ties them together.

use vstd::prelude::*;
use crate::order::spec_sort;
use crate::order::sort_lines;
use crate::perms::spec_symbolic_full;
use crate::perms::symbolic_full;

verus! {

/// Metadata of one directory entry: its kind and its POSIX permission bits.
#[derive(Clone, Copy, PartialEq, Eq, Structural, Debug)]
pub struct FileMeta {
    /// Whether the entry is itself a directory.
    pub is_directory: bool,
    /// The POSIX permission bits (owner, group, other; read, write, execute).
    /// Only the low nine bits are meaningful.
    pub permission_bits: u32,
}

/// One item found directly inside the listed directory, as plain values.
///
/// The entry reader only hands over names that are representable as valid
/// text; a raw name that is not is silently dropped before it reaches the
/// pipeline. Metadata that could not be fetched for an entry is `None`;
/// long-format output skips such entries.
#[derive(Clone, Debug)]
pub struct DirectoryEntry {
    /// The entry's file name.
    pub name: String,
    /// The entry's metadata, where it could be fetched.
    pub meta: Option<FileMeta>,
}

/// What a failed list operation reports.
#[derive(Clone, Copy, PartialEq, Eq, Structural, Debug)]
pub enum ListError {
    /// The directory itself could not be opened or enumerated.
    DirectoryUnreadable,
    /// Rendering the collected lines failed. The renderer here joins lines
    /// directly and cannot fail, so this kind is never produced; it is kept
    /// for a rendering backend that can.
    RenderFailure,
}

/// The options of one list invocation.
pub struct ListArgs {
    /// Directory to print.
    pub dir: String,
    /// Include entries starting with `.`.
    pub all: bool,
    /// List directories, not their contents. Accepted, with no effect on the
    /// pipeline yet.
    pub dirs: bool,
    /// Long listing.
    pub long: bool,
    /// List entries by columns. Accepted, with no effect on the pipeline yet.
    pub columns: bool,
}

impl Default for ListArgs {
    /// The options of a bare invocation: the current directory, short format,
    /// hidden entries excluded.
    fn default() -> (r: Self)
        ensures
            r.dir@ == "."@,
            !r.all,
            !r.dirs,
            !r.long,
            !r.columns,
    {
        ListArgs {
            dir: String::from_str("."),
            all: false,
            dirs: false,
            long: false,
            columns: false,
        }
    }
}

/// An entry the hidden-entry filter keeps: its name is non-empty and does not
/// start with `.`. On valid text the first character is `.` exactly when the
/// first byte of the name's encoding is.
pub open spec fn entry_visible(e: DirectoryEntry) -> bool {
    e.name@.len() > 0 && e.name@[0] != '.'
}

/// The entries that survive the hidden-entry filter, in their original order.
pub open spec fn spec_keep(s: Seq<DirectoryEntry>) -> Seq<DirectoryEntry>
    decreases s.len(),
{
    if s.len() == 0 {
        Seq::empty()
    } else if entry_visible(s[0]) {
        seq![s[0]] + spec_keep(s.skip(1))
    } else {
        spec_keep(s.skip(1))
    }
}

/// The entries the formatter sees: all of them with the show-all option,
/// otherwise only the visible ones.
pub open spec fn spec_visible(s: Seq<DirectoryEntry>, all: bool) -> Seq<DirectoryEntry> {
    if all {
        s
    } else {
        spec_keep(s)
    }
}

/// The type mark of a long-format line: `d` for a directory, `-` otherwise.
pub open spec fn spec_type_mark(is_directory: bool) -> Seq<char> {
    if is_directory {
        "d"@
    } else {
        "-"@
    }
}

/// The line one entry renders to: the bare name in short format; in long
/// format `<type> <perm> <name>`, or nothing where the metadata is missing.
pub open spec fn spec_line(e: DirectoryEntry, long: bool) -> Option<Seq<char>> {
    if !long {
        Some(e.name@)
    } else {
        match e.meta {
            Some(m) => Some(
                spec_type_mark(m.is_directory) + " "@ + spec_symbolic_full(m.permission_bits)
                    + " "@ + e.name@,
            ),
            None => None,
        }
    }
}

/// The lines a sequence of entries renders to, in entry order, entries
/// without a line skipped.
pub open spec fn spec_lines(s: Seq<DirectoryEntry>, long: bool) -> Seq<Seq<char>>
    decreases s.len(),
{
    if s.len() == 0 {
        Seq::empty()
    } else {
        match spec_line(s[0], long) {
            Some(l) => seq![l] + spec_lines(s.skip(1), long),
            None => spec_lines(s.skip(1), long),
        }
    }
}

/// The rendered output: every line in order, each terminated by a newline.
pub open spec fn spec_render(lines: Seq<Seq<char>>) -> Seq<char>
    decreases lines.len(),
{
    if lines.len() == 0 {
        Seq::empty()
    } else {
        lines[0] + "\n"@ + spec_render(lines.skip(1))
    }
}

/// The lines of the whole listing: the retained entries' lines, sorted.
pub open spec fn spec_listed_lines(s: Seq<DirectoryEntry>, all: bool, long: bool) -> Seq<
    Seq<char>,
> {
    spec_sort(spec_lines(spec_visible(s, all), long))
}

/// The output of the whole listing pipeline on a directory's entries:
/// filter, format, sort, render.
pub open spec fn spec_list(s: Seq<DirectoryEntry>, all: bool, long: bool) -> Seq<char> {
    spec_render(spec_listed_lines(s, all, long))
}

/// Formats one entry: the bare name in short format; `<type> <perm> <name>`
/// in long format, where the type is `d` for directories and `-` otherwise
/// and the permissions are the nine-character symbolic form. An entry whose
/// metadata is missing yields nothing in long format.
pub fn format_entry(entry: &DirectoryEntry, long: bool) -> (r: Option<String>)
    ensures
        match r {
            Some(line) => spec_line(*entry, long) == Some(line@),
            None => spec_line(*entry, long) is None,
        },
{
    if !long {
        let name = entry.name.clone();
        Some(name)
    } else {
        match &entry.meta {
            Some(m) => {
                let mut line = String::new();
                if m.is_directory {
                    line.append("d");
                } else {
                    line.append("-");
                }
                line.append(" ");
                let perms = symbolic_full(m.permission_bits);
                line.append(perms.as_str());
                line.append(" ");
                line.append(entry.name.as_str());
                proof {
                    assert(line@ =~= spec_type_mark(m.is_directory) + " "@ + spec_symbolic_full(
                        m.permission_bits,
                    ) + " "@ + entry.name@);
                }
                Some(line)
            },
            None => None,
        }
    }
}

/// Joins the rendered lines into the final output: each line in order,
/// terminated by a newline. An empty sequence of lines yields the empty
/// string.
pub fn render(lines: &Vec<String>) -> (r: String)
    ensures
        r@ == spec_render(lines@.map_values(|t: String| t@)),
{
    let ghost s = lines@.map_values(|t: String| t@);
    let mut out = String::new();
    let mut i: usize = 0;
    proof {
        assert(s.skip(0) =~= s);
        assert(out@ + spec_render(s.skip(0)) =~= spec_render(s));
    }
    while i < lines.len()
        invariant
            i <= lines.len(),
            s == lines@.map_values(|t: String| t@),
            s.len() == lines.len(),
            spec_render(s) == out@ + spec_render(s.skip(i as int)),
        decreases lines.len() - i,
    {
        proof {
            assert(s.skip(i as int)[0] == s[i as int]);
            assert(s[i as int] == lines@[i as int]@);
            assert(s.skip(i as int).skip(1) =~= s.skip(i as int + 1));
        }
        let ghost prev = out@;
        out.append(lines[i].as_str());
        out.append("\n");
        proof {
            assert(out@ =~= prev + s[i as int] + "\n"@);
            assert(prev + (s[i as int] + "\n"@ + spec_render(s.skip(i as int + 1))) =~= out@
                + spec_render(s.skip(i as int + 1)));
        }
        i = i + 1;
    }
    proof {
        assert(s.skip(i as int).len() == 0);
        assert(out@ + spec_render(s.skip(i as int)) =~= out@);
    }
    out
}

impl ListArgs {
    /// Removes the hidden entries: those whose name is empty or begins with
    /// `.`. The remaining entries keep their order.
    pub fn remove_hidden_files(&self, entries: &mut Vec<DirectoryEntry>)
        ensures
            final (entries)@ == spec_keep(old(entries)@),
    {
        let ghost orig = entries@;
        let mut i: usize = 0;
        let ghost k: int = 0;
        proof {
            assert(orig.skip(0) =~= orig);
            assert(entries@.take(0) + orig.skip(0) =~= entries@);
            assert(entries@.take(0) + spec_keep(orig.skip(0)) =~= spec_keep(orig));
        }
        loop
            invariant
                0 <= k <= orig.len(),
                i <= entries.len(),
                i == k - (orig.len() - entries.len()),
                entries@.len() == i + orig.len() - k,
                entries@ =~= entries@.take(i as int) + orig.skip(k),
                spec_keep(orig) == entries@.take(i as int) + spec_keep(orig.skip(k)),
            ensures
                entries@ == entries@.take(i as int),
                spec_keep(orig) == entries@.take(i as int) + spec_keep(orig.skip(k)),
                k == orig.len(),
            decreases entries.len() - i,
        {
            if i == entries.len() {
                proof {
                    assert(k == orig.len());
                    assert(entries@ =~= entries@.take(i as int));
                }
                break;
            }
            assert(entries@[i as int] == orig[k]);
            assert(orig.skip(k)[0] == orig[k]);
            let visible = if entries[i].name.as_str().is_empty() {
                false
            } else {
                let c = entries[i].name.as_str().get_char(0);
                c != '.'
            };
            proof {
                assert(visible == entry_visible(orig[k]));
                assert(orig.skip(k).skip(1) =~= orig.skip(k + 1));
            }
            if visible {
                proof {
                    assert(seq![orig[k]] + spec_keep(orig.skip(k + 1)) == spec_keep(orig.skip(k)));
                    assert(entries@.take(i as int) + seq![orig[k]] =~= entries@.take(i as int + 1));
                    assert(entries@.take(i as int + 1) + orig.skip(k + 1) =~= entries@);
                    assert(entries@.take(i as int + 1) + spec_keep(orig.skip(k + 1)) =~= spec_keep(
                        orig,
                    ));
                    k = k + 1;
                }
                i = i + 1;
            } else {
                let ghost before = entries@;
                let _removed = entries.remove(i);
                proof {
                    assert(entries@ =~= before.take(i as int) + orig.skip(k + 1));
                    assert(entries@.take(i as int) =~= before.take(i as int));
                    assert(spec_keep(orig.skip(k)) == spec_keep(orig.skip(k + 1)));
                    k = k + 1;
                }
            }
        }
    }

    /// Formats each retained entry into one line, short or long as the
    /// options say, skipping entries that yield no line.
    pub fn format_entries(&self, entries: &Vec<DirectoryEntry>) -> (r: Vec<String>)
        ensures
            r@.map_values(|t: String| t@) == spec_lines(entries@, self.long),
    {
        let ghost s = entries@;
        let mut out: Vec<String> = Vec::new();
        let mut i: usize = 0;
        proof {
            assert(s.skip(0) =~= s);
            assert(out@.map_values(|t: String| t@) + spec_lines(s.skip(0), self.long) =~= spec_lines(
                s,
                self.long,
            ));
        }
        while i < entries.len()
            invariant
                i <= entries.len(),
                s == entries@,
                spec_lines(s, self.long) == out@.map_values(|t: String| t@) + spec_lines(
                    s.skip(i as int),
                    self.long,
                ),
            decreases entries.len() - i,
        {
            proof {
                assert(s.skip(i as int)[0] == s[i as int]);
                assert(s.skip(i as int).skip(1) =~= s.skip(i as int + 1));
            }
            let ghost prev = out@.map_values(|t: String| t@);
            let line = format_entry(&entries[i], self.long);
            match line {
                Some(l) => {
                    proof {
                        assert(prev + (seq![l@] + spec_lines(s.skip(i as int + 1), self.long))
                            =~= prev.push(l@) + spec_lines(s.skip(i as int + 1), self.long));
                    }
                    out.push(l);
                    assert(out@.map_values(|t: String| t@) =~= prev.push(l@));
                },
                None => {},
            }
            i = i + 1;
        }
        proof {
            assert(s.skip(i as int).len() == 0);
            assert(out@.map_values(|t: String| t@) + spec_lines(s.skip(i as int), self.long)
                =~= out@.map_values(|t: String| t@));
        }
        out
    }

    /// The list operation itself, on the outcome of reading the directory:
    /// `None` where the directory could not be opened or enumerated, `Some`
    /// with the entries that were read otherwise.
    ///
    /// An unreadable directory is the single fatal failure and yields
    /// `DirectoryUnreadable` with no output. Entries that were read are
    /// filtered, formatted, sorted and rendered; that never fails, so every
    /// readable directory yields output, an empty directory the empty string.
    pub fn list(&self, read: Option<Vec<DirectoryEntry>>) -> (r: Result<String, ListError>)
        ensures
            match read {
                None => r == Result::<String, ListError>::Err(ListError::DirectoryUnreadable),
                Some(entries) => match r {
                    Ok(out) => out@ == spec_list(entries@, self.all, self.long),
                    Err(_) => false,
                },
            },
    {
        match read {
            None => Err(ListError::DirectoryUnreadable),
            Some(mut entries) => {
                let ghost orig = entries@;
                if !self.all {
                    self.remove_hidden_files(&mut entries);
                }
                assert(entries@ == spec_visible(orig, self.all));
                let contents = self.format_entries(&entries);
                let sorted = sort_lines(&contents);
                let out = render(&sorted);
                Ok(out)
            },
        }
    }
}

} // verus!
