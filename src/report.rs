use crate::codec::chars_of;
use crate::edit::{entries_view, EntryView};
use crate::tags::TagManager;
use vstd::prelude::*;
use vstd::string::*;

verus! {

/// What scanning found for one image file.
#[derive(Debug)]
pub enum ImageScan {
    /// A PNG file, with its entries or the message of the error met reading them.
    Png(Result<Vec<(String, String)>, String>),
    /// A JPEG file, whose metadata is not read.
    Jpg,
    /// Any other file.
    Unsupported,
}

pub open spec fn strings_view(v: Seq<String>) -> Seq<Seq<char>> {
    v.map_values(|s: String| s@)
}

pub open spec fn one_line(s: Seq<char>) -> Seq<Seq<char>> {
    Seq::empty().push(s)
}

/// An entry as shown in a scan listing.
pub open spec fn entry_line(p: EntryView) -> Seq<char> {
    "    "@ + p.0 + ": "@ + p.1
}

/// The lines that describe what was found in one file.
pub open spec fn findings(scan: ImageScan) -> Seq<Seq<char>> {
    match scan {
        ImageScan::Png(Ok(e)) => if e@.len() == 0 {
            one_line("  No metadata found."@)
        } else {
            one_line("  Metadata:"@) + entries_view(e@).map_values(|p: EntryView| entry_line(p))
        },
        ImageScan::Png(Err(m)) => one_line("  Failed to read PNG metadata: "@ + m@),
        ImageScan::Jpg => one_line("  Metadata reading not implemented for JPG."@),
        ImageScan::Unsupported => one_line("  Unsupported file format."@),
    }
}

/// The lines of a scan listing for one file.
pub open spec fn image_lines(name: Seq<char>, scan: ImageScan) -> Seq<Seq<char>> {
    one_line("Processing image: "@ + name) + findings(scan)
}

/// The lines of a scan listing for several files, in order.
pub open spec fn scan_lines(images: Seq<(String, ImageScan)>) -> Seq<Seq<char>>
    decreases images.len(),
{
    if images.len() == 0 {
        Seq::empty()
    } else {
        scan_lines(images.drop_last()) + image_lines(images.last().0@, images.last().1)
    }
}

/// `a`, then `b`.
pub fn joined(a: &str, b: &str) -> (r: String)
    ensures
        r@ == a@ + b@,
{
    let mut s = String::from_str(a);
    s.append(b);
    s
}

fn push_all(out: &mut Vec<String>, lines: Vec<String>)
    ensures
        strings_view(final(out)@) == strings_view(old(out)@) + strings_view(lines@),
{
    let ghost start = out@;
    let mut i: usize = 0;
    while i < lines.len()
        invariant
            i <= lines.len(),
            strings_view(out@) =~= strings_view(start) + strings_view(lines@.subrange(0, i as int)),
        decreases lines.len() - i,
    {
        let ghost prev = out@;
        out.push(lines[i].clone());
        proof {
            assert(strings_view(out@) =~= strings_view(prev).push(lines@[i as int]@));
            assert(strings_view(lines@.subrange(0, i + 1)) =~= strings_view(
                lines@.subrange(0, i as int),
            ).push(lines@[i as int]@));
        }
        i = i + 1;
    }
    proof {
        assert(lines@.subrange(0, lines.len() as int) =~= lines@);
    }
}

/// The lines that describe what was found in one file.
pub fn findings_lines(scan: &ImageScan) -> (r: Vec<String>)
    ensures
        strings_view(r@) == findings(*scan),
{
    let mut out: Vec<String> = Vec::new();
    proof {
        reveal_strlit("  No metadata found.");
        reveal_strlit("  Metadata:");
        reveal_strlit("    ");
        reveal_strlit(": ");
        reveal_strlit("  Failed to read PNG metadata: ");
        reveal_strlit("  Metadata reading not implemented for JPG.");
        reveal_strlit("  Unsupported file format.");
    }
    match scan {
        ImageScan::Png(Ok(e)) => {
            if e.len() == 0 {
                out.push(String::from_str("  No metadata found."));
                proof {
                    assert(strings_view(out@) =~= findings(*scan));
                }
            } else {
                out.push(String::from_str("  Metadata:"));
                let ghost ev = entries_view(e@);
                let mut i: usize = 0;
                while i < e.len()
                    invariant
                        i <= e.len(),
                        ev == entries_view(e@),
                        strings_view(out@) =~= one_line("  Metadata:"@) + ev.subrange(
                            0,
                            i as int,
                        ).map_values(|p: EntryView| entry_line(p)),
                    decreases e.len() - i,
                {
                    let mut line = joined("    ", e[i].0.as_str());
                    line.append(": ");
                    line.append(e[i].1.as_str());
                    let ghost prev = out@;
                    out.push(line);
                    proof {
                        assert(strings_view(out@) =~= strings_view(prev).push(entry_line(ev[i as int])));
                        assert(ev.subrange(0, i + 1).map_values(|p: EntryView| entry_line(p))
                            =~= ev.subrange(0, i as int).map_values(|p: EntryView| entry_line(p)).push(
                            entry_line(ev[i as int]),
                        ));
                    }
                    i = i + 1;
                }
                proof {
                    assert(ev.subrange(0, e.len() as int) =~= ev);
                }
            }
        },
        ImageScan::Png(Err(m)) => {
            out.push(joined("  Failed to read PNG metadata: ", m.as_str()));
            proof {
                assert(strings_view(out@) =~= findings(*scan));
            }
        },
        ImageScan::Jpg => {
            out.push(String::from_str("  Metadata reading not implemented for JPG."));
            proof {
                assert(strings_view(out@) =~= findings(*scan));
            }
        },
        ImageScan::Unsupported => {
            out.push(String::from_str("  Unsupported file format."));
            proof {
                assert(strings_view(out@) =~= findings(*scan));
            }
        },
    }
    out
}

impl TagManager {
    /// The scan listing of several files: for each, a line with its name, then what was
    /// found in it.
    pub fn scan_images_with_tags(images: &Vec<(String, ImageScan)>) -> (r: Vec<String>)
        ensures
            strings_view(r@) == scan_lines(images@),
    {
        let mut out: Vec<String> = Vec::new();
        let mut i: usize = 0;
        proof {
            reveal_strlit("Processing image: ");
        }
        while i < images.len()
            invariant
                i <= images.len(),
                strings_view(out@) == scan_lines(images@.subrange(0, i as int)),
            decreases images.len() - i,
        {
            let ghost prev = out@;
            out.push(joined("Processing image: ", images[i].0.as_str()));
            push_all(&mut out, findings_lines(&images[i].1));
            proof {
                let sub = images@.subrange(0, i + 1);
                assert(sub.drop_last() =~= images@.subrange(0, i as int));
                assert(strings_view(prev.push(out@[prev.len() as int])) =~= strings_view(prev).push(
                    out@[prev.len() as int]@,
                ));
                assert(strings_view(out@) =~= scan_lines(sub));
            }
            i = i + 1;
        }
        proof {
            assert(images@.subrange(0, images.len() as int) =~= images@);
        }
        out
    }
}

/// The scan listing of a folder's image files.
pub fn scan_folder_with_tags(images: &Vec<(String, ImageScan)>) -> (r: Vec<String>)
    ensures
        strings_view(r@) == scan_lines(images@),
{
    TagManager::scan_images_with_tags(images)
}

/// An entry as shown in a table row.
pub open spec fn pair_text(p: EntryView) -> Seq<char> {
    p.0 + ": "@ + p.1
}

/// The entries shown one after another, separated by ", ".
pub open spec fn join_pairs(e: Seq<EntryView>) -> Seq<char>
    decreases e.len(),
{
    if e.len() == 0 {
        Seq::empty()
    } else if e.len() == 1 {
        pair_text(e[0])
    } else {
        join_pairs(e.drop_last()) + ", "@ + pair_text(e.last())
    }
}

/// The tag column of a table row, for a file whose entries were read or could not be.
pub open spec fn tags_cell(r: Option<Seq<EntryView>>) -> Seq<char> {
    match r {
        Some(e) => if e.len() == 0 {
            "No tags"@
        } else {
            join_pairs(e)
        },
        None => "Error reading tags"@,
    }
}

pub open spec fn spaces(n: nat) -> Seq<char> {
    Seq::new(n, |i: int| ' ')
}

/// `s` followed by spaces up to `n` characters.
pub open spec fn pad_right(s: Seq<char>, n: nat) -> Seq<char> {
    if s.len() >= n {
        s
    } else {
        s + spaces((n - s.len()) as nat)
    }
}

/// Width of the file-name column of a table row.
pub const NAME_WIDTH: usize = 30;

/// Width of the tag column of a table row.
pub const TAGS_WIDTH: usize = 50;

pub open spec fn table_row_spec(name: Seq<char>, tags: Seq<char>) -> Seq<char> {
    pad_right(name, NAME_WIDTH as nat) + " "@ + pad_right(tags, TAGS_WIDTH as nat)
}

/// Appends spaces to `s` up to `width` characters.
pub fn pad(s: &mut String, width: usize)
    ensures
        final(s)@ == pad_right(old(s)@, width as nat),
{
    let ghost s0 = s@;
    let n = chars_of(s.as_str()).len();
    let mut k: usize = n;
    proof {
        reveal_strlit(" ");
        assert(s0 + spaces(0) =~= s0);
    }
    while k < width
        invariant
            n == s0.len(),
            n <= k,
            k <= width || k == n,
            s@ == s0 + spaces((k - n) as nat),
        decreases width - k,
    {
        s.append(" ");
        proof {
            reveal_strlit(" ");
            assert(s0 + spaces((k - n) as nat) + " "@ =~= s0 + spaces((k + 1 - n) as nat));
        }
        k = k + 1;
    }
    proof {
        if n >= width {
            assert(s@ =~= s0);
        } else {
            assert(s@ =~= pad_right(s0, width as nat));
        }
    }
}

/// The tag column for a file's entries, or for a file whose entries could not be read.
pub fn tags_text(metadata: &Option<Vec<(String, String)>>) -> (r: String)
    ensures
        r@ == tags_cell(match metadata {
            Some(e) => Some(entries_view(e@)),
            None => None,
        }),
{
    proof {
        reveal_strlit("No tags");
        reveal_strlit("Error reading tags");
        reveal_strlit(": ");
        reveal_strlit(", ");
    }
    match metadata {
        None => String::from_str("Error reading tags"),
        Some(e) => {
            if e.len() == 0 {
                return String::from_str("No tags");
            }
            let ghost ev = entries_view(e@);
            let mut out = String::new();
            let mut i: usize = 0;
            while i < e.len()
                invariant
                    i <= e.len(),
                    ev == entries_view(e@),
                    out@ == join_pairs(ev.subrange(0, i as int)),
                decreases e.len() - i,
            {
                if i > 0 {
                    out.append(", ");
                }
                out.append(e[i].0.as_str());
                out.append(": ");
                out.append(e[i].1.as_str());
                proof {
                    let sub = ev.subrange(0, i + 1);
                    assert(sub.drop_last() =~= ev.subrange(0, i as int));
                    assert(sub.last() == ev[i as int]);
                    assert(out@ =~= join_pairs(sub));
                }
                i = i + 1;
            }
            proof {
                assert(ev.subrange(0, e.len() as int) =~= ev);
            }
            out
        },
    }
}

/// One row of the file table: the name and the tag column, each padded to its width.
pub fn table_row(name: &str, tags: &str) -> (r: String)
    ensures
        r@ == table_row_spec(name@, tags@),
{
    let mut row = String::from_str(name);
    pad(&mut row, NAME_WIDTH);
    row.append(" ");
    let mut cell = String::from_str(tags);
    pad(&mut cell, TAGS_WIDTH);
    row.append(cell.as_str());
    proof {
        reveal_strlit(" ");
    }
    row
}

} // verus!
