//! Date resolver: the two-tier strategy that attributes one UTC capture
//! timestamp to a file — the embedded capture-time tag when it is present and
//! parseable, else the filesystem inode-change timestamp.
use crate::calendar::{epoch_secs_limit, epoch_secs_of, Timestamp};
use crate::parse::{datetime_parses, datetime_value, parse_datetime};
use vstd::prelude::*;

verus! {

/// A resolved capture timestamp, tagged with the tier that produced it.
#[derive(Clone, Copy, PartialEq, Eq, Structural, Debug)]
pub enum ResolvedDate {
    FromMetadata(Timestamp),
    FromFilesystem(Timestamp),
}

impl ResolvedDate {
    /// The timestamp, whichever tier produced it.
    pub open spec fn ts(self) -> Timestamp {
        match self {
            ResolvedDate::FromMetadata(t) => t,
            ResolvedDate::FromFilesystem(t) => t,
        }
    }

    /// The timestamp, whichever tier produced it, executably.
    pub fn timestamp(&self) -> (r: Timestamp)
        ensures
            r == self.ts(),
    {
        match self {
            ResolvedDate::FromMetadata(t) => *t,
            ResolvedDate::FromFilesystem(t) => *t,
        }
    }
}

/// Why no capture timestamp could be attributed to a file.
#[derive(Clone, Copy, PartialEq, Eq, Structural, Debug)]
pub enum DateError {
    /// Neither an embedded capture time nor a usable filesystem timestamp.
    NoUsableTimestamp,
}

/// The raw embedded capture-time tag value that the metadata decoder reads
/// from a file's bytes, when the bytes hold one.
pub uninterp spec fn exif_datetime_original(bytes: Seq<u8>) -> Option<Seq<char>>;

/// Relies on kamadak-exif: `Reader::read_from_container` decodes the Exif
/// block of a byte stream, `Exif::get_field` looks up the `DateTimeOriginal`
/// tag of the primary image, and an `Ascii` field value holds its text.
/// All of it is a deterministic function of the bytes alone, named by
/// `exif_datetime_original`.
#[verifier::external_body]
fn read_exif_datetime(bytes: &[u8]) -> (r: Option<String>)
    ensures
        r is Some <==> exif_datetime_original(bytes@) is Some,
        r matches Some(s) ==> exif_datetime_original(bytes@) matches Some(m) && s@ == m,
{
    let exif = exif::Reader::new().read_from_container(&mut std::io::Cursor::new(bytes)).ok()?;
    let field = exif.get_field(exif::Tag::DateTimeOriginal, exif::In::PRIMARY)?;
    match &field.value {
        exif::Value::Ascii(v) if !v.is_empty() => {
            std::str::from_utf8(&v[0]).ok().map(|s| s.to_string())
        },
        _ => None,
    }
}

/// Whether an embedded capture-time tag value is present and parseable.
pub open spec fn meta_usable(m: Option<Seq<char>>) -> bool {
    m matches Some(s) && datetime_parses(s)
}

/// Whether a filesystem timestamp is present and within the representable
/// range of the dated destination layout.
pub open spec fn ctime_usable(c: Option<i64>) -> bool {
    c matches Some(t) && 0 <= t < epoch_secs_limit()
}

/// The view of an optional owned string.
pub open spec fn opt_str_view(m: Option<String>) -> Option<Seq<char>> {
    match m {
        Some(s) => Some(s@),
        None => None,
    }
}

/// The view of optional raw file bytes, run through the metadata decoder.
pub open spec fn meta_of_bytes(bytes: Option<&[u8]>) -> Option<Seq<char>> {
    match bytes {
        Some(b) => exif_datetime_original(b@),
        None => None,
    }
}

/// Resolves the capture timestamp from the two already-gathered inputs: the
/// embedded capture-time tag value, if any, and the filesystem inode-change
/// timestamp, if any. Returns the metadata tier whenever the tag parses,
/// else the filesystem tier whenever the timestamp is representable, and an
/// error exactly when neither tier is usable.
pub fn resolve_from_parts(metadata: Option<String>, ctime_secs: Option<i64>) -> (r: Result<
    ResolvedDate,
    DateError,
>)
    ensures
        meta_usable(opt_str_view(metadata)) ==> (metadata matches Some(s) && r == Ok::<
            ResolvedDate,
            DateError,
        >(ResolvedDate::FromMetadata(datetime_value(s@)))),
        !meta_usable(opt_str_view(metadata)) && ctime_usable(ctime_secs) ==> (r matches Ok(
            ResolvedDate::FromFilesystem(ts),
        ) && ts.valid() && ts.date.year >= 1970 && epoch_secs_of(ts) == ctime_secs->0),
        r is Err <==> !meta_usable(opt_str_view(metadata)) && !ctime_usable(ctime_secs),
        r matches Ok(d) ==> d.ts().valid(),
{
    if let Some(s) = &metadata {
        if let Some(ts) = parse_datetime(s.as_str()) {
            return Ok(ResolvedDate::FromMetadata(ts));
        }
    }
    if let Some(c) = ctime_secs {
        if let Some(ts) = crate::calendar::timestamp_from_epoch(c) {
            return Ok(ResolvedDate::FromFilesystem(ts));
        }
    }
    Err(DateError::NoUsableTimestamp)
}

/// Resolves the capture timestamp of one file from its raw bytes (absent
/// when the file could not be read) and its filesystem inode-change
/// timestamp (absent when even that could not be read). Whatever the
/// metadata decoder finds in the bytes, the result is the two-tier decision
/// of `resolve_from_parts` on it; the call fails exactly when no tier is
/// usable.
pub fn resolve_capture_date(file_bytes: Option<&[u8]>, ctime_secs: Option<i64>) -> (r: Result<
    ResolvedDate,
    DateError,
>)
    ensures
        meta_usable(meta_of_bytes(file_bytes)) ==> r == Ok::<ResolvedDate, DateError>(
            ResolvedDate::FromMetadata(datetime_value(meta_of_bytes(file_bytes)->0)),
        ),
        !meta_usable(meta_of_bytes(file_bytes)) && ctime_usable(ctime_secs) ==> (r matches Ok(
            ResolvedDate::FromFilesystem(ts),
        ) && ts.valid() && ts.date.year >= 1970 && epoch_secs_of(ts) == ctime_secs->0),
        r is Err <==> !meta_usable(meta_of_bytes(file_bytes)) && !ctime_usable(ctime_secs),
        r matches Ok(d) ==> d.ts().valid(),
{
    let metadata: Option<String> = match file_bytes {
        Some(b) => read_exif_datetime(b),
        None => None,
    };
    proof {
        assert(opt_str_view(metadata) == meta_of_bytes(file_bytes));
    }
    resolve_from_parts(metadata, ctime_secs)
}

} // verus!
