use crate::codec::{
    all_latin1, chars_of, decode, decode_spec, encode, encode_spec, encode_view, entries_fault,
    entry_fault, has_png_signature, lemma_entries_valid, lemma_round_trip, readable_size,
    written_from, ColorKind, PngHeader,
};
use crate::edit::{
    apply_edit, drop_key, edited, entries_view, has_key, is_first_of_key, lemma_first_of_key_exists,
    lemma_replace_idempotent,
    merge_entry, replace_entry, value_separator, EditPolicy, EntryView,
};
use crate::error::FormatError;
use vstd::prelude::*;
use vstd::string::*;

verus! {

/// The image formats recognised by file extension.
#[derive(Debug, Clone, Copy, PartialEq, Eq, Structural)]
pub enum ImageFormat {
    Png,
    Jpg,
}

/// Operations on the metadata of image files, on the files' bytes.
pub struct TagManager {}

/// What str::to_lowercase gives for a text.
pub uninterp spec fn lower_of(s: Seq<char>) -> Seq<char>;

/// Relies on str::to_lowercase: the result depends on the characters alone.
#[verifier::external_body]
fn lowercase(s: &str) -> (r: String)
    ensures
        r@ == lower_of(s@),
{
    s.to_lowercase()
}

/// The format named by an extension that is already in lower case.
pub open spec fn format_of(ext: Seq<char>) -> Option<ImageFormat> {
    if ext == "png"@ {
        Some(ImageFormat::Png)
    } else if ext == "jpg"@ || ext == "jpeg"@ {
        Some(ImageFormat::Jpg)
    } else {
        None
    }
}

/// `c` with ASCII upper-case letters mapped to lower case.
pub open spec fn ascii_lower(c: char) -> char {
    if 'A' <= c <= 'Z' {
        (((c as u8) + 32) as u8) as char
    } else {
        c
    }
}

/// `ext` equals `target` when ASCII letters are compared without case.
pub open spec fn eq_ascii_nocase(ext: Seq<char>, target: Seq<char>) -> bool {
    &&& ext.len() == target.len()
    &&& forall|i: int| 0 <= i < ext.len() ==> ascii_lower(#[trigger] ext[i]) == ascii_lower(target[i])
}

/// The result of setting `k` to `v` in the stream `b`: the decoded header and samples are
/// handed unchanged to the encoder, with the edited entry list.
pub open spec fn tag_spec(b: Seq<u8>, k: Seq<char>, v: Seq<char>, policy: EditPolicy) -> Result<
    Seq<u8>,
    FormatError,
> {
    match decode_spec(b) {
        Err(f) => Err(f),
        Ok(d) => encode_spec(d.0, d.1, edited(d.2, k, v, policy)),
    }
}

/// `out` is `b` edited: `b` decodes, `out` opens with the same header chunk, and where the
/// edited image is of readable size, decoding `out` gives the same header, the same samples
/// byte for byte and the edited entry list.
pub open spec fn kept_image(
    b: Seq<u8>,
    out: Seq<u8>,
    k: Seq<char>,
    v: Seq<char>,
    policy: EditPolicy,
) -> bool {
    &&& decode_spec(b) is Ok
    &&& written_from(out, decode_spec(b)->Ok_0.0)
    &&& readable_size(decode_spec(b)->Ok_0.0, edited(decode_spec(b)->Ok_0.2, k, v, policy))
        ==> decode_spec(out) == Ok::<(PngHeader, Seq<u8>, Seq<EntryView>), FormatError>(
        (decode_spec(b)->Ok_0.0, decode_spec(b)->Ok_0.1, edited(decode_spec(b)->Ok_0.2, k, v, policy)),
    )
}

/// Tagging can succeed on `b` with `(k, v)`: `b` decodes to an image that is not a palette
/// image, and the new entry can be written.
pub open spec fn taggable(b: Seq<u8>, k: Seq<char>, v: Seq<char>) -> bool {
    &&& decode_spec(b) is Ok
    &&& decode_spec(b)->Ok_0.0.color != ColorKind::Indexed
    &&& entry_fault((k, v)) is None
}

proof fn lemma_drop_key_valid(e: Seq<EntryView>, k: Seq<char>)
    requires
        forall|i: int| 0 <= i < e.len() ==> entry_fault(#[trigger] e[i]) is None,
    ensures
        forall|i: int| 0 <= i < drop_key(e, k).len() ==> entry_fault(#[trigger] drop_key(e, k)[i]) is None,
    decreases e.len(),
{
    if e.len() > 0 {
        let rest = drop_key(e.drop_last(), k);
        lemma_drop_key_valid(e.drop_last(), k);
        if e.last().0 != k {
            assert forall|i: int| 0 <= i < drop_key(e, k).len() implies entry_fault(
                #[trigger] drop_key(e, k)[i],
            ) is None by {
                if i < rest.len() {
                    assert(drop_key(e, k)[i] == rest[i]);
                }
            }
        }
    }
}

/// An edit of a list that can be written, with an entry that can be written, gives a list
/// that can be written.
pub proof fn lemma_edit_valid(e: Seq<EntryView>, k: Seq<char>, v: Seq<char>, policy: EditPolicy)
    requires
        entries_fault(e) is None,
        entry_fault((k, v)) is None,
    ensures
        entries_fault(edited(e, k, v, policy)) is None,
{
    lemma_entries_valid(e);
    let r = edited(e, k, v, policy);
    lemma_entries_valid(r);
    match policy {
        EditPolicy::Replace => {
            lemma_drop_key_valid(e, k);
            let d = drop_key(e, k);
            assert forall|i: int| 0 <= i < r.len() implies entry_fault(#[trigger] r[i]) is None by {
                if i < d.len() {
                    assert(r[i] == d[i]);
                }
            }
        },
        EditPolicy::Append => {
            if has_key(e, k) {
                lemma_first_of_key_exists(e, k);
                let c = choose|c: int| is_first_of_key(e, k, c);
                let joined = e[c].1 + value_separator() + v;
                assert(entry_fault(e[c]) is None);
                assert(all_latin1(joined)) by {
                    assert forall|j: int| 0 <= j < joined.len() implies crate::codec::latin1(
                        #[trigger] joined[j],
                    ) by {
                        if j < e[c].1.len() {
                            assert(joined[j] == e[c].1[j]);
                        } else if j < e[c].1.len() + 2 {
                            assert(joined[j] == value_separator()[j - e[c].1.len()]);
                        } else {
                            assert(joined[j] == v[j - e[c].1.len() - 2]);
                        }
                    }
                }
                assert(entry_fault((k, joined)) is None);
                assert forall|i: int| 0 <= i < r.len() implies entry_fault(#[trigger] r[i]) is None by {
                    if i != c {
                        assert(r[i] == e[i]);
                    }
                }
            } else {
                assert(r == e.push((k, v)));
                assert forall|i: int| 0 <= i < r.len() implies entry_fault(#[trigger] r[i]) is None by {
                    if i < e.len() {
                        assert(r[i] == e[i]);
                    }
                }
            }
        },
    }
}

/// Tagging a file a second time with the same keyword and value under the replace policy
/// changes nothing that decoding shows: same header, same samples, same entries, and the
/// file holds exactly one entry for the keyword, the last one, carrying the value.
pub proof fn lemma_retag_idempotent(
    b: Seq<u8>,
    once: Seq<u8>,
    twice: Seq<u8>,
    k: Seq<char>,
    v: Seq<char>,
)
    requires
        kept_image(b, once, k, v, EditPolicy::Replace),
        kept_image(once, twice, k, v, EditPolicy::Replace),
        readable_size(decode_spec(b)->Ok_0.0, replace_entry(decode_spec(b)->Ok_0.2, k, v)),
    ensures
        decode_spec(once) == Ok::<(PngHeader, Seq<u8>, Seq<EntryView>), FormatError>(
            (decode_spec(b)->Ok_0.0, decode_spec(b)->Ok_0.1, replace_entry(decode_spec(b)->Ok_0.2, k, v)),
        ),
        decode_spec(twice) == decode_spec(once),
        decode_spec(once)->Ok_0.2.last() == (k, v),
        forall|i: int|
            0 <= i < decode_spec(once)->Ok_0.2.len() && (#[trigger] decode_spec(once)->Ok_0.2[i]).0
                == k ==> i == decode_spec(once)->Ok_0.2.len() - 1,
{
    let e0 = decode_spec(b)->Ok_0.2;
    lemma_replace_idempotent(e0, k, v);
}

pub open spec fn entries_result_view(r: Result<Vec<(String, String)>, FormatError>) -> Result<
    Seq<EntryView>,
    FormatError,
> {
    match r {
        Ok(e) => Ok(entries_view(e@)),
        Err(f) => Err(f),
    }
}

pub open spec fn read_spec(b: Seq<u8>) -> Result<Seq<EntryView>, FormatError> {
    match decode_spec(b) {
        Err(f) => Err(f),
        Ok(d) => Ok(d.2),
    }
}

fn lower_char(c: char) -> (r: char)
    ensures
        r == ascii_lower(c),
{
    if 'A' <= c && c <= 'Z' {
        ((c as u8) + 32) as char
    } else {
        c
    }
}

impl TagManager {
    /// The format named by a lower-case extension.
    pub fn format_of_lowercase(ext: &str) -> (r: Option<ImageFormat>)
        ensures
            r == format_of(ext@),
    {
        let e = String::from_str(ext);
        let png = String::from_str("png");
        let jpg = String::from_str("jpg");
        let jpeg = String::from_str("jpeg");
        proof {
            reveal_strlit("png");
            reveal_strlit("jpg");
            reveal_strlit("jpeg");
        }
        if e == png {
            Some(ImageFormat::Png)
        } else if e == jpg || e == jpeg {
            Some(ImageFormat::Jpg)
        } else {
            None
        }
    }

    /// The format named by a file extension, in any case.
    pub fn get_image_format(ext: &str) -> (r: Option<ImageFormat>)
        ensures
            r == format_of(lower_of(ext@)),
    {
        let lower = lowercase(ext);
        Self::format_of_lowercase(lower.as_str())
    }

    /// A file is scanned when its extension, in lower case, is `png`, `jpg` or `jpeg`.
    pub fn is_listed_extension(ext: &str) -> (r: bool)
        ensures
            r == (lower_of(ext@) == "png"@ || lower_of(ext@) == "jpg"@ || lower_of(ext@)
                == "jpeg"@),
    {
        let lower = lowercase(ext);
        let png = String::from_str("png");
        let jpg = String::from_str("jpg");
        let jpeg = String::from_str("jpeg");
        lower == png || lower == jpg || lower == jpeg
    }

    /// A file is listed in the tag table when its extension is `png` in any ASCII case.
    pub fn is_png_extension(ext: &str) -> (r: bool)
        ensures
            r == eq_ascii_nocase(ext@, "png"@),
    {
        let e = chars_of(ext);
        let target = chars_of("png");
        proof {
            reveal_strlit("png");
        }
        if e.len() != target.len() {
            return false;
        }
        let mut i: usize = 0;
        while i < e.len()
            invariant
                i <= e.len(),
                e.len() == target.len(),
                e@ == ext@,
                target@ == "png"@,
                forall|j: int| 0 <= j < i ==> ascii_lower(#[trigger] e@[j]) == ascii_lower(target@[j]),
            decreases e.len() - i,
        {
            if lower_char(e[i]) != lower_char(target[i]) {
                proof {
                    assert(ascii_lower(ext@[i as int]) != ascii_lower("png"@[i as int]));
                }
                return false;
            }
            i = i + 1;
        }
        true
    }

    /// The uncompressed text entries of a PNG stream, in file order.
    pub fn read_png_metadata(bytes: &[u8]) -> (r: Result<Vec<(String, String)>, FormatError>)
        ensures
            entries_result_view(r) == read_spec(bytes@),
    {
        match decode(bytes) {
            Ok(d) => Ok(d.1),
            Err(f) => Err(f),
        }
    }

    /// The stream `bytes` with `key` set to `value` under `policy`: same header, same
    /// samples, edited entries. On any fault nothing is produced, so the caller has nothing
    /// to write.
    pub fn tag_bytes(bytes: &[u8], key: &String, value: &String, policy: EditPolicy) -> (r: Result<
        Vec<u8>,
        FormatError,
    >)
        ensures
            encode_view(r) == tag_spec(bytes@, key@, value@, policy),
            !has_png_signature(bytes@) ==> r == Err::<Vec<u8>, FormatError>(FormatError::NotAPng),
            r matches Ok(out) ==> kept_image(bytes@, out@, key@, value@, policy),
            taggable(bytes@, key@, value@) ==> r is Ok,
    {
        match decode(bytes) {
            Err(f) => Err(f),
            Ok(d) => {
                let (raster, entries) = d;
                let updated = apply_edit(&entries, key, value, policy);
                proof {
                    if entry_fault((key@, value@)) is None {
                        lemma_edit_valid(entries_view(entries@), key@, value@, policy);
                    }
                }
                let r = encode(&raster, &updated);
                proof {
                    if r is Ok && readable_size(raster.header, entries_view(updated@)) {
                        lemma_round_trip(
                            raster.header,
                            raster.pixels@,
                            entries_view(updated@),
                            r->Ok_0@,
                        );
                    }
                }
                r
            },
        }
    }

    /// Sets `key` to `value` in a PNG stream, replacing every earlier entry for `key`.
    pub fn add_png_metadata(bytes: &[u8], key: &String, value: &String) -> (r: Result<
        Vec<u8>,
        FormatError,
    >)
        ensures
            encode_view(r) == tag_spec(bytes@, key@, value@, EditPolicy::Replace),
            r matches Ok(out) ==> kept_image(bytes@, out@, key@, value@, EditPolicy::Replace),
            taggable(bytes@, key@, value@) ==> r is Ok,
    {
        Self::tag_bytes(bytes, key, value, EditPolicy::Replace)
    }
}

} // verus!
