//! Records of uploaded code: how a version is named, how its code is
//! addressed by content, and how the code is packed for storage.

use vstd::prelude::*;
use vstd::string::StringExecFns;
use vstd::utf8::encode_utf8;
use std::fmt::Write as FmtWrite;
use std::io::{Read, Write};
use chrono::{DateTime, Utc};
use flate2::read::DeflateDecoder;
use flate2::write::DeflateEncoder;
use flate2::Compression;
use sha2::{Digest, Sha256};

verus! {

/// Layout of the time stamp that starts the name of a version.
pub const ID_TIMESTAMP_LAYOUT: &'static str = "%Y%m%d-%H%M%S";

/// The SHA-256 digest of a byte string, as `sha2` computes it.
pub uninterp spec fn sha256_of(data: Seq<u8>) -> Seq<u8>;

/// What `flate2` makes of a byte string as a raw deflate stream at its
/// default level; `None` if it reports an error.
pub uninterp spec fn deflated(data: Seq<u8>) -> Option<Seq<u8>>;

/// The text that `flate2` unpacks from a raw deflate stream; `None` if the
/// stream is damaged or what it holds is not UTF-8.
pub uninterp spec fn inflated(data: Seq<u8>) -> Option<Seq<char>>;

/// The moment `seconds` after the start of 1970, in UTC, written out by
/// `chrono` in the given layout; `None` if the moment is out of `chrono`'s
/// range or the layout is not one it can write.
pub uninterp spec fn timestamp_text(seconds: i64, layout: Seq<char>) -> Option<Seq<char>>;

/// Calls `Sha256::digest`. The result is the digest of `data`, 32 bytes long.
#[verifier::external_body]
fn sha256(data: &[u8]) -> (out: Vec<u8>)
    ensures
        out@ == sha256_of(data@),
        out@.len() == 32,
{
    Sha256::digest(data).to_vec()
}

/// Feeds `data` to a `flate2::write::DeflateEncoder` over an empty buffer, at
/// `Compression::default()`, and finishes it. The result is the stream, or
/// `None` where `flate2` reports an error.
#[verifier::external_body]
fn deflate(data: &[u8]) -> (out: Option<Vec<u8>>)
    ensures
        match out {
            Some(stream) => deflated(data@) == Some(stream@),
            None => deflated(data@) is None,
        },
{
    let mut encoder = DeflateEncoder::new(Vec::new(), Compression::default());
    match encoder.write_all(data) {
        Ok(()) => match encoder.finish() {
            Ok(stream) => Some(stream),
            Err(_) => None,
        },
        Err(_) => None,
    }
}

/// Reads a `flate2::read::DeflateDecoder` over `data` to its end as text.
/// The result is the text, or `None` where `flate2` or the UTF-8 check
/// reports an error.
#[verifier::external_body]
fn inflate(data: &[u8]) -> (out: Option<String>)
    ensures
        match out {
            Some(text) => inflated(data@) == Some(text@),
            None => inflated(data@) is None,
        },
{
    let mut decoder = DeflateDecoder::new(data);
    let mut text = String::new();
    match decoder.read_to_string(&mut text) {
        Ok(_) => Some(text),
        Err(_) => None,
    }
}

/// Calls `DateTime::<Utc>::from_timestamp` with no nanoseconds and writes
/// the moment out with `DateTime::format`. The result is that text, or `None`
/// where `chrono` has no such moment or cannot write the layout.
#[verifier::external_body]
fn format_timestamp(seconds: i64, layout: &str) -> (out: Option<String>)
    ensures
        match out {
            Some(text) => timestamp_text(seconds, layout@) == Some(text@),
            None => timestamp_text(seconds, layout@) is None,
        },
{
    match DateTime::<Utc>::from_timestamp(seconds, 0) {
        Some(moment) => {
            let mut text = String::new();
            match write!(text, "{}", moment.format(layout)) {
                Ok(()) => Some(text),
                Err(_) => None,
            }
        },
        None => None,
    }
}

/// The lower-case hexadecimal digit for a value below sixteen.
pub open spec fn hex_digit(n: int) -> char {
    if n == 0 {
        '0'
    } else if n == 1 {
        '1'
    } else if n == 2 {
        '2'
    } else if n == 3 {
        '3'
    } else if n == 4 {
        '4'
    } else if n == 5 {
        '5'
    } else if n == 6 {
        '6'
    } else if n == 7 {
        '7'
    } else if n == 8 {
        '8'
    } else if n == 9 {
        '9'
    } else if n == 10 {
        'a'
    } else if n == 11 {
        'b'
    } else if n == 12 {
        'c'
    } else if n == 13 {
        'd'
    } else if n == 14 {
        'e'
    } else {
        'f'
    }
}

/// A byte string in lower-case hexadecimal, two digits a byte, high digit
/// first.
pub open spec fn hex_of(bytes: Seq<u8>) -> Seq<char> {
    Seq::new(
        2 * bytes.len(),
        |i: int|
            if i % 2 == 0 {
                hex_digit(bytes[i / 2] as int / 16)
            } else {
                hex_digit(bytes[i / 2] as int % 16)
            },
    )
}

/// The name of a version: its time stamp, a hyphen, and the digest of its code.
pub open spec fn version_id(stamp: Seq<char>, digest: Seq<char>) -> Seq<char> {
    stamp + seq!['-'] + digest
}

/// The content address of a source text: the SHA-256 digest of its UTF-8
/// bytes in lower-case hexadecimal.
pub open spec fn digest_of(code: Seq<char>) -> Seq<char> {
    hex_of(sha256_of(encode_utf8(code)))
}

/// The one-digit text for a value below sixteen.
fn hex_digit_text(n: u8) -> (text: &'static str)
    requires
        n < 16,
    ensures
        text@ == seq![hex_digit(n as int)],
{
    proof {
        reveal_strlit("0");
        reveal_strlit("1");
        reveal_strlit("2");
        reveal_strlit("3");
        reveal_strlit("4");
        reveal_strlit("5");
        reveal_strlit("6");
        reveal_strlit("7");
        reveal_strlit("8");
        reveal_strlit("9");
        reveal_strlit("a");
        reveal_strlit("b");
        reveal_strlit("c");
        reveal_strlit("d");
        reveal_strlit("e");
        reveal_strlit("f");
    }
    let text = if n == 0 {
        "0"
    } else if n == 1 {
        "1"
    } else if n == 2 {
        "2"
    } else if n == 3 {
        "3"
    } else if n == 4 {
        "4"
    } else if n == 5 {
        "5"
    } else if n == 6 {
        "6"
    } else if n == 7 {
        "7"
    } else if n == 8 {
        "8"
    } else if n == 9 {
        "9"
    } else if n == 10 {
        "a"
    } else if n == 11 {
        "b"
    } else if n == 12 {
        "c"
    } else if n == 13 {
        "d"
    } else if n == 14 {
        "e"
    } else {
        "f"
    };
    assert(text@ =~= seq![hex_digit(n as int)]);
    text
}

/// Writes a byte string in lower-case hexadecimal.
pub fn to_hex(bytes: &[u8]) -> (text: String)
    ensures
        text@ == hex_of(bytes@),
{
    let mut text = String::new();
    let mut i: usize = 0;
    while i < bytes.len()
        invariant
            i <= bytes@.len(),
            text@ == hex_of(bytes@.take(i as int)),
        decreases bytes@.len() - i,
    {
        let byte = bytes[i];
        let ghost before = text@;
        text.append(hex_digit_text(byte / 16));
        text.append(hex_digit_text(byte % 16));
        assert(text@ =~= hex_of(bytes@.take(i + 1))) by {
            let next = bytes@.take(i + 1);
            assert(text@.len() == 2 * next.len());
            assert forall|j: int| 0 <= j < text@.len() implies text@[j] == hex_of(next)[j] by {
                if j < 2 * i {
                    assert(before[j] == hex_of(bytes@.take(i as int))[j]);
                    assert(bytes@.take(i as int)[j / 2] == next[j / 2]);
                } else {
                    assert(next[j / 2] == byte);
                }
            }
        }
        i += 1;
    }
    assert(bytes@.take(i as int) =~= bytes@);
    text
}

/// The content address of a source text.
pub fn digest(code: &str) -> (address: String)
    ensures
        address@ == digest_of(code@),
        address@.len() == 64,
{
    let hash = sha256(code.as_bytes());
    to_hex(hash.as_slice())
}

/// A stored version of a team's code.
#[derive(Debug)]
pub struct Version {
    pub id: String,
    pub scenario_name: String,
    /// Whole seconds since the start of 1970, in UTC.
    pub timestamp: i64,
    /// Nanoseconds past the whole second.
    pub timestamp_nanos: u32,
    pub digest: String,
    pub label: Option<String>,
}

/// What a caller supplies to store a version.
#[derive(Debug)]
pub struct CreateVersionParams {
    pub code: String,
    pub scenario_name: String,
    pub label: Option<String>,
}

/// A version ready to be stored: its record, and its code packed for the
/// content-addressed store under the record's digest.
#[derive(Debug)]
pub struct NewVersion {
    pub version: Version,
    pub packed_code: Vec<u8>,
}

/// Why a version could not be prepared.
#[derive(Clone, Copy, PartialEq, Eq, Structural, Debug)]
pub enum VersionError {
    /// The time stamp cannot be written out.
    Timestamp,
    /// The code could not be packed.
    Compression,
}

/// Copies an optional label.
fn copy_label(label: &Option<String>) -> (copy: Option<String>)
    ensures
        copy == *label,
{
    match label {
        Some(text) => Some(text.clone()),
        None => None,
    }
}

/// Prepares the record and the packed code of a version uploaded
/// `timestamp` seconds and `timestamp_nanos` nanoseconds after the start of
/// 1970. The name of the version counts whole seconds.
pub fn create_version(params: &CreateVersionParams, timestamp: i64, timestamp_nanos: u32) -> (r:
    Result<NewVersion, VersionError>)
    ensures
        match r {
            Ok(new) => {
                &&& timestamp_text(timestamp, ID_TIMESTAMP_LAYOUT@) matches Some(stamp)
                &&& deflated(encode_utf8(params.code@)) == Some(new.packed_code@)
                &&& new.version.id@ == version_id(stamp, digest_of(params.code@))
                &&& new.version.digest@ == digest_of(params.code@)
                &&& new.version.scenario_name == params.scenario_name
                &&& new.version.timestamp == timestamp
                &&& new.version.timestamp_nanos == timestamp_nanos
                &&& new.version.label == params.label
            },
            Err(VersionError::Timestamp) => timestamp_text(timestamp, ID_TIMESTAMP_LAYOUT@) is None,
            Err(VersionError::Compression) => {
                &&& timestamp_text(timestamp, ID_TIMESTAMP_LAYOUT@) is Some
                &&& deflated(encode_utf8(params.code@)) is None
            },
        },
{
    let stamp = match format_timestamp(timestamp, ID_TIMESTAMP_LAYOUT) {
        Some(stamp) => stamp,
        None => {
            return Err(VersionError::Timestamp);
        },
    };
    let packed_code = match deflate(params.code.as_str().as_bytes()) {
        Some(stream) => stream,
        None => {
            return Err(VersionError::Compression);
        },
    };
    let address = digest(params.code.as_str());
    proof {
        reveal_strlit("-");
        assert("-"@ =~= seq!['-']);
    }
    let id = stamp.concat("-").concat(address.as_str());
    Ok(
        NewVersion {
            version: Version {
                id,
                scenario_name: params.scenario_name.clone(),
                timestamp,
                timestamp_nanos,
                digest: address,
                label: copy_label(&params.label),
            },
            packed_code,
        },
    )
}

/// Unpacks what the code store holds under a digest: `None` where it holds
/// nothing, or what it holds cannot be unpacked as text.
pub fn get_code(stored: Option<&[u8]>) -> (code: Option<String>)
    ensures
        match stored {
            Some(stream) => match code {
                Some(text) => inflated(stream@) == Some(text@),
                None => inflated(stream@) is None,
            },
            None => code is None,
        },
{
    match stored {
        Some(stream) => inflate(stream),
        None => None,
    }
}

/// The records that could be read, the one stored last first.
pub open spec fn newest_first(records: Seq<Option<Version>>) -> Seq<Version>
    decreases records.len(),
{
    if records.len() == 0 {
        Seq::empty()
    } else {
        let older = newest_first(records.drop_last());
        match records.last() {
            Some(v) => seq![v] + older,
            None => older,
        }
    }
}

/// Lists the versions among `records`, newest first. A record that could not
/// be read is `None` and is passed over.
pub fn list_versions(records: Vec<Option<Version>>) -> (versions: Vec<Version>)
    ensures
        versions@ == newest_first(records@),
{
    let mut records = records;
    let ghost all = records@;
    let mut versions: Vec<Version> = Vec::new();
    while records.len() > 0
        invariant
            versions@ + newest_first(records@) == newest_first(all),
        decreases records@.len(),
    {
        let ghost before = records@;
        let ghost listed = versions@;
        let record = records.pop();
        assert(records@ == before.drop_last());
        if let Some(Some(version)) = record {
            versions.push(version);
            assert(versions@ + newest_first(records@) =~= listed + (seq![version] + newest_first(
                records@,
            )));
        }
    }
    assert(versions@ + newest_first(records@) =~= versions@);
    versions
}

} // verus!
