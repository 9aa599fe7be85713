use crate::model::DirEntry;
use crate::text::{concat2, decimal, decimal_i64, pad_left, padded_left};
use vstd::prelude::*;

verus! {

/// How a listing is written out.
#[derive(Copy, Clone, Debug, PartialEq, Eq, PartialOrd, Ord, Structural)]
pub enum DirFormat {
    Short,
    Long,
    Json,
    Xml,
}

/// Writes the entries of a listing as lines of text.
#[derive(Copy, Clone, Debug)]
pub struct DirPrinter {
    pub format: DirFormat,
}

/// The short line of an entry: its name, with a slash behind a directory.
pub open spec fn short_line(e: DirEntry) -> Seq<char> {
    if e.leaf {
        e.text@
    } else {
        e.text@ + seq!['/']
    }
}

/// The size column of an entry: a slash where no size applies, else the
/// size in decimal notation.
pub open spec fn size_column(e: DirEntry) -> Seq<char> {
    if e.size_on_disk == -1 {
        seq!['/']
    } else {
        decimal(e.size_on_disk as int)
    }
}

/// The long line of an entry: its time stamp, its size column right-aligned
/// in ten characters, and its path without the leading separator, with tabs
/// between them.
pub open spec fn long_line(e: DirEntry) -> Seq<char> {
    e.last_modified@ + seq!['\t'] + padded_left(size_column(e), 10) + seq!['\t']
        + e.relative_path@.skip(1)
}

/// The line of an entry in the given format.
pub open spec fn entry_line(format: DirFormat, e: DirEntry) -> Seq<char> {
    match format {
        DirFormat::Short => short_line(e),
        _ => long_line(e),
    }
}

/// The entries that a format can write: the short format takes any entry,
/// the long format one whose path begins with a one-byte character; no
/// other format writes lines.
pub open spec fn printable(format: DirFormat, e: DirEntry) -> bool {
    match format {
        DirFormat::Short => true,
        DirFormat::Long => e.relative_path@.len() > 0 && (e.relative_path@[0] as u32) < 0x80,
        _ => false,
    }
}

impl DirPrinter {
    /// Whether `print_entry` can write this entry.
    pub fn can_print(&self, entry: &DirEntry) -> (ok: bool)
        ensures
            ok == printable(self.format, *entry),
    {
        match self.format {
            DirFormat::Short => true,
            DirFormat::Long => {
                let path = entry.relative_path.as_str();
                path.unicode_len() > 0 && (path.get_char(0) as u32) < 0x80
            },
            _ => false,
        }
    }

    /// The line that stands for one entry.
    pub fn print_entry(&self, entry: &DirEntry) -> (line: String)
        requires
            printable(self.format, *entry),
        ensures
            line@ == entry_line(self.format, *entry),
    {
        proof {
            reveal_strlit("/");
            reveal_strlit("\t");
            assert("/"@ =~= seq!['/']);
            assert("\t"@ =~= seq!['\t']);
        }
        match self.format {
            DirFormat::Short => {
                if entry.leaf {
                    entry.text.clone()
                } else {
                    concat2(entry.text.as_str(), "/")
                }
            },
            _ => {
                let size_or_dir = if entry.size_on_disk == -1 {
                    "/".to_owned()
                } else {
                    decimal_i64(entry.size_on_disk)
                };
                let path = entry.relative_path.as_str();
                let mut line = entry.last_modified.clone();
                line.append("\t");
                line.append(pad_left(size_or_dir.as_str(), 10).as_str());
                line.append("\t");
                line.append(path.substring_char(1, path.unicode_len()));
                line
            },
        }
    }

    /// The lines that stand for the entries, one for each, in their order.
    pub fn print_dir(&self, entries: &[DirEntry]) -> (lines: Vec<String>)
        requires
            forall|i: int| 0 <= i < entries@.len() ==> printable(self.format, #[trigger] entries@[i]),
        ensures
            lines@.len() == entries@.len(),
            forall|i: int|
                0 <= i < entries@.len() ==> (#[trigger] lines@[i])@ == entry_line(
                    self.format,
                    entries@[i],
                ),
    {
        let mut lines: Vec<String> = Vec::with_capacity(entries.len());
        let mut i: usize = 0;
        while i < entries.len()
            invariant
                i <= entries@.len(),
                lines@.len() == i,
                forall|k: int| 0 <= k < entries@.len() ==> printable(self.format, #[trigger] entries@[k]),
                forall|k: int|
                    0 <= k < i ==> (#[trigger] lines@[k])@ == entry_line(self.format, entries@[k]),
            decreases entries@.len() - i,
        {
            lines.push(self.print_entry(&entries[i]));
            i += 1;
        }
        lines
    }
}

} // verus!
