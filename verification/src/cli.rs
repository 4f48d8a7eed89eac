//! What the command line shows.

use vstd::prelude::*;
use vstd::string::{StringExecFns, StringSliceAdditionalSpecFns};
use vstd::utf8::{decode_utf8, encode_utf8, is_char_boundary};

verus! {

/// The first four bytes of a date, which hold the year; nothing where the
/// date is shorter or the cut would split a character.
pub open spec fn year_text(release_date: Seq<char>) -> Option<Seq<char>> {
    let bytes = encode_utf8(release_date);
    if bytes.len() >= 4 && is_char_boundary(bytes, 4) {
        Some(decode_utf8(bytes.subrange(0, 4)))
    } else {
        None
    }
}

/// The line that offers an album for selection: title, artist and, in
/// brackets, the year of the release. Nothing where the date holds no year.
pub fn album_label(title: &str, artist: &str, release_date: &str) -> (label: Option<String>)
    ensures
        match label {
            Some(label) => year_text(release_date@) matches Some(year) && label@ == title@
                + " - "@ + artist@ + " ("@ + year + ")"@,
            None => year_text(release_date@) is None,
        },
{
    broadcast use vstd::utf8::encode_utf8_valid_utf8;
    broadcast use vstd::utf8::encode_utf8_decode_utf8;

    if release_date.as_bytes().len() < 4 || !release_date.is_char_boundary(4) {
        return None;
    }
    let (year, _) = release_date.split_at(4);
    assert(year.spec_bytes() == encode_utf8(release_date@).subrange(0, 4));
    let mut label = String::from_str(title);
    label.append(" - ");
    label.append(artist);
    label.append(" (");
    label.append(year);
    label.append(")");
    Some(label)
}

} // verus!
