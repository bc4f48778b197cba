//! The `.lora` archive format.
//!
//! An archive is the name, the id, the Lua source and the asset files of a
//! game, one after the other:
//!
//! ```text
//! u32 name length, name bytes
//! u32 id length,   id bytes
//! u64 code length, code bytes
//! then, for every asset: u32 path length, path bytes, u64 data length, data
//! ```
//!
//! Every integer is written big-endian; every text is UTF-8.
use vstd::prelude::*;
use vstd::string::StrSliceExecFns;
use vstd::string::StringSliceAdditionalSpecFns;
use vstd::utf8::decode_utf8;
use vstd::utf8::encode_utf8;
use vstd::utf8::valid_utf8;

use crate::files::entries_view;
use crate::files::files_map;
use crate::files::LoraFiles;

verus! {

/// The four big-endian bytes of `x`.
pub open spec fn be_bytes_u32(x: u32) -> Seq<u8> {
    seq![(x >> 24u32) as u8, (x >> 16u32) as u8, (x >> 8u32) as u8, x as u8]
}

/// The eight big-endian bytes of `x`.
pub open spec fn be_bytes_u64(x: u64) -> Seq<u8> {
    seq![
        (x >> 56u64) as u8,
        (x >> 48u64) as u8,
        (x >> 40u64) as u8,
        (x >> 32u64) as u8,
        (x >> 24u64) as u8,
        (x >> 16u64) as u8,
        (x >> 8u64) as u8,
        x as u8,
    ]
}

/// The `u32` whose big-endian bytes start `b`.
pub open spec fn be_value_u32(b: Seq<u8>) -> u32
    recommends
        b.len() >= 4,
{
    ((b[0] as u32) << 24u32) | ((b[1] as u32) << 16u32) | ((b[2] as u32) << 8u32) | (b[3] as u32)
}

/// The `u64` whose big-endian bytes start `b`.
pub open spec fn be_value_u64(b: Seq<u8>) -> u64
    recommends
        b.len() >= 8,
{
    ((b[0] as u64) << 56u64) | ((b[1] as u64) << 48u64) | ((b[2] as u64) << 40u64) | ((
    b[3] as u64) << 32u64) | ((b[4] as u64) << 24u64) | ((b[5] as u64) << 16u64) | ((
    b[6] as u64) << 8u64) | (b[7] as u64)
}

/// Appends the big-endian bytes of `input` to `bytes`.
pub fn write_u32(bytes: &mut Vec<u8>, input: u32)
    ensures
        final(bytes)@ == old(bytes)@ + be_bytes_u32(input),
{
    bytes.push((input >> 24u32) as u8);
    bytes.push((input >> 16u32) as u8);
    bytes.push((input >> 8u32) as u8);
    bytes.push(input as u8);
}

/// Appends the big-endian bytes of `input` to `bytes`.
pub fn write_u64(bytes: &mut Vec<u8>, input: u64)
    ensures
        final(bytes)@ == old(bytes)@ + be_bytes_u64(input),
{
    bytes.push((input >> 56u64) as u8);
    bytes.push((input >> 48u64) as u8);
    bytes.push((input >> 40u64) as u8);
    bytes.push((input >> 32u64) as u8);
    bytes.push((input >> 24u64) as u8);
    bytes.push((input >> 16u64) as u8);
    bytes.push((input >> 8u64) as u8);
    bytes.push(input as u8);
}

/// Removes the first `n` bytes of `data` and returns them.
fn take_front(data: &mut Vec<u8>, n: usize) -> (front: Vec<u8>)
    requires
        n <= old(data)@.len(),
    ensures
        front@ == old(data)@.take(n as int),
        final(data)@ == old(data)@.skip(n as int),
{
    let mut rest = data.split_off(n);
    std::mem::swap(data, &mut rest);
    rest
}

/// Reads a big-endian `u32` off the front of `data`.
pub fn read_u32(data: &mut Vec<u8>) -> (value: u32)
    requires
        old(data)@.len() >= 4,
    ensures
        value == be_value_u32(old(data)@),
        final(data)@ == old(data)@.skip(4),
{
    let value: u32 = ((data[0] as u32) << 24u32) | ((data[1] as u32) << 16u32) | ((
    data[2] as u32) << 8u32) | (data[3] as u32);
    let _ = take_front(data, 4);
    value
}

/// Reads a big-endian `u64` off the front of `data`.
pub fn read_u64(data: &mut Vec<u8>) -> (value: u64)
    requires
        old(data)@.len() >= 8,
    ensures
        value == be_value_u64(old(data)@),
        final(data)@ == old(data)@.skip(8),
{
    let value: u64 = ((data[0] as u64) << 56u64) | ((data[1] as u64) << 48u64) | ((
    data[2] as u64) << 40u64) | ((data[3] as u64) << 32u64) | ((data[4] as u64) << 24u64) | ((
    data[5] as u64) << 16u64) | ((data[6] as u64) << 8u64) | (data[7] as u64);
    let _ = take_front(data, 8);
    value
}

/// Reading the bytes that `write_u32` wrote gives back the number.
pub proof fn lemma_u32_round_trip(x: u32, rest: Seq<u8>)
    ensures
        be_value_u32(be_bytes_u32(x) + rest) == x,
{
    let s = be_bytes_u32(x) + rest;
    assert(s[0] == (x >> 24u32) as u8);
    assert(s[1] == (x >> 16u32) as u8);
    assert(s[2] == (x >> 8u32) as u8);
    assert(s[3] == x as u8);
    assert((((((x >> 24u32) as u8) as u32) << 24u32) | ((((x >> 16u32) as u8) as u32) << 16u32)
        | ((((x >> 8u32) as u8) as u32) << 8u32) | ((x as u8) as u32)) == x) by (bit_vector);
}

/// Reading the bytes that `write_u64` wrote gives back the number.
pub proof fn lemma_u64_round_trip(x: u64, rest: Seq<u8>)
    ensures
        be_value_u64(be_bytes_u64(x) + rest) == x,
{
    let s = be_bytes_u64(x) + rest;
    assert(s[0] == (x >> 56u64) as u8);
    assert(s[1] == (x >> 48u64) as u8);
    assert(s[2] == (x >> 40u64) as u8);
    assert(s[3] == (x >> 32u64) as u8);
    assert(s[4] == (x >> 24u64) as u8);
    assert(s[5] == (x >> 16u64) as u8);
    assert(s[6] == (x >> 8u64) as u8);
    assert(s[7] == x as u8);
    assert((((((x >> 56u64) as u8) as u64) << 56u64) | ((((x >> 48u64) as u8) as u64) << 48u64)
        | ((((x >> 40u64) as u8) as u64) << 40u64) | ((((x >> 32u64) as u8) as u64) << 32u64)
        | ((((x >> 24u64) as u8) as u64) << 24u64) | ((((x >> 16u64) as u8) as u64) << 16u64)
        | ((((x >> 8u64) as u8) as u64) << 8u64) | ((x as u8) as u64)) == x) by (bit_vector);
}


/// A text as the archive stores it: its UTF-8 byte length as a `u32`,
/// then the bytes.
pub open spec fn string_field(s: Seq<char>) -> Seq<u8> {
    be_bytes_u32(encode_utf8(s).len() as u32) + encode_utf8(s)
}

/// A byte blob as the archive stores it: its length as a `u64`, then the bytes.
pub open spec fn blob_field(b: Seq<u8>) -> Seq<u8> {
    be_bytes_u64(b.len() as u64) + b
}

/// Appends `input` as a text field: its byte length, cut to 32 bits, then
/// its UTF-8 bytes.
pub fn write_string(bytes: &mut Vec<u8>, input: &String)
    ensures
        final(bytes)@ == old(bytes)@ + string_field(input@),
{
    let mut bytes_input = input.as_str().as_bytes_vec();
    write_u32(bytes, bytes_input.len() as u32);
    bytes.append(&mut bytes_input);
    assert(bytes@ =~= old(bytes)@ + string_field(input@));
}

/// Appends the contents of a file as a blob field: its length, then the bytes.
pub fn write_file(bytes: &mut Vec<u8>, contents: &[u8])
    ensures
        final(bytes)@ == old(bytes)@ + blob_field(contents@),
{
    write_u64(bytes, contents.len() as u64);
    let ghost start = bytes@;
    let mut i: usize = 0;
    while i < contents.len()
        invariant
            i <= contents@.len(),
            bytes@ == start + contents@.take(i as int),
        decreases contents@.len() - i,
    {
        bytes.push(contents[i]);
        i = i + 1;
        assert(bytes@ =~= start + contents@.take(i as int));
    }
    assert(contents@.take(i as int) =~= contents@);
    assert(bytes@ =~= old(bytes)@ + blob_field(contents@));
}

/// Takes `size` bytes off the front of `data`.
pub fn read_bytes(data: &mut Vec<u8>, size: u64) -> (rval: Vec<u8>)
    requires
        size <= old(data)@.len(),
    ensures
        rval@ == old(data)@.take(size as int),
        final(data)@ == old(data)@.skip(size as int),
{
    let len = data.len();
    assert(size <= len);
    take_front(data, size as usize)
}

/// `std::str::from_utf8`: it succeeds exactly on valid UTF-8, and the text
/// it returns is made of the very bytes it was given (it does not copy).
#[verifier::external_body]
pub(crate) fn str_from_utf8(v: &[u8]) -> (r: Option<&str>)
    ensures
        r is Some <==> valid_utf8(v@),
        r matches Some(s) ==> s.spec_bytes() == v@,
{
    std::str::from_utf8(v).ok()
}

/// Takes `size` bytes off the front of `data` and reads them as UTF-8 text.
pub fn read_string(data: &mut Vec<u8>, size: u64) -> (text: String)
    requires
        size <= old(data)@.len(),
        valid_utf8(old(data)@.take(size as int)),
    ensures
        text@ == decode_utf8(old(data)@.take(size as int)),
        final(data)@ == old(data)@.skip(size as int),
{
    broadcast use vstd::utf8::group_utf8_lib;

    let raw = read_bytes(data, size);
    match str_from_utf8(raw.as_slice()) {
        Some(s) => s.to_owned(),
        None => String::new(),
    }
}


/// The bytes of one asset: its path as a text field, its data as a blob.
pub open spec fn entry_bytes(e: (Seq<char>, Seq<u8>)) -> Seq<u8> {
    string_field(e.0) + blob_field(e.1)
}

/// The bytes of a list of assets, one after the other.
pub open spec fn entries_bytes(es: Seq<(Seq<char>, Seq<u8>)>) -> Seq<u8>
    decreases es.len(),
{
    if es.len() == 0 {
        seq![]
    } else {
        entry_bytes(es[0]) + entries_bytes(es.drop_first())
    }
}

/// The archive of a game whose Lua source file holds the bytes `code`.
pub open spec fn archive_bytes(
    name: Seq<char>,
    id: Seq<char>,
    code: Seq<u8>,
    files: Seq<(Seq<char>, Seq<u8>)>,
) -> Seq<u8> {
    string_field(name) + string_field(id) + blob_field(code) + entries_bytes(files)
}

/// What an archive holds, as a reader finds it.
pub struct ArchiveContents {
    pub name: Seq<char>,
    pub id: Seq<char>,
    pub code: Seq<char>,
    pub files: Seq<(Seq<char>, Seq<u8>)>,
}

/// A whole text field at the front of `data` (a `u32` length, then that
/// many bytes of valid UTF-8): the text and the bytes after it.
pub open spec fn take_string_field(data: Seq<u8>) -> Option<(Seq<char>, Seq<u8>)> {
    if data.len() < 4 {
        None
    } else {
        let n = be_value_u32(data) as int;
        let rest = data.skip(4);
        if rest.len() < n || !valid_utf8(rest.take(n)) {
            None
        } else {
            Some((decode_utf8(rest.take(n)), rest.skip(n)))
        }
    }
}

/// A whole blob field at the front of `data` (a `u64` length, then that
/// many bytes): the bytes and what follows them.
pub open spec fn take_blob_field(data: Seq<u8>) -> Option<(Seq<u8>, Seq<u8>)> {
    if data.len() < 8 {
        None
    } else {
        let n = be_value_u64(data) as int;
        let rest = data.skip(8);
        if rest.len() < n {
            None
        } else {
            Some((rest.take(n), rest.skip(n)))
        }
    }
}

/// A whole blob field at the front of `data` whose bytes are valid UTF-8:
/// the text and what follows it.
pub open spec fn take_text_blob_field(data: Seq<u8>) -> Option<(Seq<char>, Seq<u8>)> {
    match take_blob_field(data) {
        Some((b, rest)) => if valid_utf8(b) {
            Some((decode_utf8(b), rest))
        } else {
            None
        },
        None => None,
    }
}

/// The assets that `data` holds, if it is nothing but whole asset records.
pub open spec fn decode_entries(data: Seq<u8>) -> Option<Seq<(Seq<char>, Seq<u8>)>>
    decreases data.len(),
{
    if data.len() == 0 {
        Some(seq![])
    } else if data.len() < 4 {
        None
    } else {
        let n = be_value_u32(data) as int;
        let r1 = data.skip(4);
        if r1.len() < n || !valid_utf8(r1.take(n)) {
            None
        } else {
            let path = decode_utf8(r1.take(n));
            let r2 = r1.skip(n);
            if r2.len() < 8 {
                None
            } else {
                let m = be_value_u64(r2) as int;
                let r3 = r2.skip(8);
                if r3.len() < m {
                    None
                } else {
                    match decode_entries(r3.skip(m)) {
                        Some(es) => Some(seq![(path, r3.take(m))] + es),
                        None => None,
                    }
                }
            }
        }
    }
}

/// What the archive `data` holds, if it is a well-formed archive.
pub open spec fn decode_archive(data: Seq<u8>) -> Option<ArchiveContents> {
    match take_string_field(data) {
        None => None,
        Some((name, r1)) => match take_string_field(r1) {
            None => None,
            Some((id, r2)) => match take_text_blob_field(r2) {
                None => None,
                Some((code, r3)) => match decode_entries(r3) {
                    None => None,
                    Some(files) => Some(ArchiveContents { name, id, code, files }),
                },
            },
        },
    }
}


/// A text field is read back as the text it was written from, and the
/// bytes after it are left as they were.
pub proof fn lemma_string_field_round_trip(s: Seq<char>, rest: Seq<u8>)
    requires
        encode_utf8(s).len() <= u32::MAX,
    ensures
        take_string_field(string_field(s) + rest) == Some((s, rest)),
{
    broadcast use vstd::utf8::group_utf8_lib;

    let b = encode_utf8(s);
    let data = string_field(s) + rest;
    assert(data =~= be_bytes_u32(b.len() as u32) + (b + rest));
    lemma_u32_round_trip(b.len() as u32, b + rest);
    assert(data.skip(4) =~= b + rest);
    assert((b + rest).take(b.len() as int) =~= b);
    assert((b + rest).skip(b.len() as int) =~= rest);
}

/// A blob field is read back as the bytes it was written from.
pub proof fn lemma_blob_field_round_trip(b: Seq<u8>, rest: Seq<u8>)
    requires
        b.len() <= u64::MAX,
    ensures
        take_blob_field(blob_field(b) + rest) == Some((b, rest)),
{
    let data = blob_field(b) + rest;
    assert(data =~= be_bytes_u64(b.len() as u64) + (b + rest));
    lemma_u64_round_trip(b.len() as u64, b + rest);
    assert(data.skip(8) =~= b + rest);
    assert((b + rest).take(b.len() as int) =~= b);
    assert((b + rest).skip(b.len() as int) =~= rest);
}

/// The asset list fits the format: every path's byte length fits a `u32`
/// and every file's length a `u64`.
pub open spec fn entries_fit(es: Seq<(Seq<char>, Seq<u8>)>) -> bool {
    forall|i: int|
        0 <= i < es.len() ==> encode_utf8(#[trigger] es[i].0).len() <= u32::MAX && es[i].1.len()
            <= u64::MAX
}

/// The asset records written for `es` are read back as `es`.
pub proof fn lemma_entries_round_trip(es: Seq<(Seq<char>, Seq<u8>)>)
    requires
        entries_fit(es),
    ensures
        decode_entries(entries_bytes(es)) == Some(es),
    decreases es.len(),
{
    broadcast use vstd::utf8::group_utf8_lib;

    if es.len() > 0 {
        let e = es[0];
        let tail = es.drop_first();
        assert(entries_fit(tail)) by {
            assert forall|i: int| 0 <= i < tail.len() implies encode_utf8(#[trigger] tail[i].0).len()
                <= u32::MAX && tail[i].1.len() <= u64::MAX by {
                assert(tail[i] == es[i + 1]);
            }
        }
        lemma_entries_round_trip(tail);
        let data = entries_bytes(es);
        let rest = entries_bytes(tail);
        let p = encode_utf8(e.0);
        assert(data =~= string_field(e.0) + (blob_field(e.1) + rest));
        lemma_string_field_round_trip(e.0, blob_field(e.1) + rest);
        lemma_blob_field_round_trip(e.1, rest);
        assert(data.len() != 0);
        assert(seq![(e.0, e.1)] + tail =~= es);
    }
}

/// Reading the archive written from a game's name, id, Lua source and
/// assets gives back that name, id, source and those assets, in order.
pub proof fn law_archive_round_trip(
    name: Seq<char>,
    id: Seq<char>,
    code: Seq<char>,
    files: Seq<(Seq<char>, Seq<u8>)>,
)
    requires
        encode_utf8(name).len() <= u32::MAX,
        encode_utf8(id).len() <= u32::MAX,
        encode_utf8(code).len() <= u64::MAX,
        entries_fit(files),
    ensures
        decode_archive(archive_bytes(name, id, encode_utf8(code), files)) == Some(
            ArchiveContents { name, id, code, files },
        ),
{
    broadcast use vstd::utf8::group_utf8_lib;

    let c = encode_utf8(code);
    let tail = entries_bytes(files);
    let data = archive_bytes(name, id, c, files);
    assert(data =~= string_field(name) + (string_field(id) + (blob_field(c) + tail)));
    lemma_string_field_round_trip(name, string_field(id) + (blob_field(c) + tail));
    lemma_string_field_round_trip(id, blob_field(c) + tail);
    lemma_blob_field_round_trip(c, tail);
    lemma_entries_round_trip(files);
}


/// The number that the four bytes of `s` from `at` on stand for, read in
/// big-endian order.
pub open spec fn weight4(s: Seq<u8>, at: int) -> int {
    s[at] * 16777216 + s[at + 1] * 65536 + s[at + 2] * 256 + s[at + 3]
}

/// The number that the eight bytes of `s` from `at` on stand for, read in
/// big-endian order.
pub open spec fn weight8(s: Seq<u8>, at: int) -> int {
    s[at] * 0x100000000000000 + s[at + 1] * 0x1000000000000 + s[at + 2] * 0x10000000000 + s[at
        + 3] * 0x100000000 + s[at + 4] * 0x1000000 + s[at + 5] * 0x10000 + s[at + 6] * 0x100 + s[at
        + 7]
}

/// The four bytes of a `u32` length, as written, weigh in big-endian
/// order to the number itself.
proof fn lemma_u32_bytes_weigh(x: u32)
    ensures
        ((x >> 24u32) as u8) * 16777216 + ((x >> 16u32) as u8) * 65536 + ((x >> 8u32) as u8)
            * 256 + (x as u8) == x,
{
    assert(((x >> 24u32) as u8) * 16777216 + ((x >> 16u32) as u8) * 65536 + ((x >> 8u32) as u8)
        * 256 + (x as u8) == x) by (bit_vector);
}

/// The eight bytes of a `u64` length, as written, weigh in big-endian
/// order to the number itself.
proof fn lemma_u64_bytes_weigh(x: u64)
    ensures
        ((x >> 56u64) as u8) * 0x100000000000000 + ((x >> 48u64) as u8) * 0x1000000000000 + ((x
            >> 40u64) as u8) * 0x10000000000 + ((x >> 32u64) as u8) * 0x100000000 + ((x
            >> 24u64) as u8) * 0x1000000 + ((x >> 16u64) as u8) * 0x10000 + ((x >> 8u64) as u8)
            * 0x100 + (x as u8) == x,
{
    assert(((x >> 56u64) as u8) * 0x100000000000000 + ((x >> 48u64) as u8) * 0x1000000000000 + ((x
        >> 40u64) as u8) * 0x10000000000 + ((x >> 32u64) as u8) * 0x100000000 + ((x >> 24u64) as u8)
        * 0x1000000 + ((x >> 16u64) as u8) * 0x10000 + ((x >> 8u64) as u8) * 0x100 + (x as u8)
        == x) by (bit_vector);
}

/// Four bytes read as a `u32` weigh in big-endian order.
proof fn lemma_read_u32_weighs(b0: u8, b1: u8, b2: u8, b3: u8)
    ensures
        ((b0 as u32) << 24u32) | ((b1 as u32) << 16u32) | ((b2 as u32) << 8u32) | (b3 as u32)
            == b0 * 16777216 + b1 * 65536 + b2 * 256 + b3,
{
    assert(((b0 as u32) << 24u32) | ((b1 as u32) << 16u32) | ((b2 as u32) << 8u32) | (b3 as u32)
        == b0 * 16777216 + b1 * 65536 + b2 * 256 + b3) by (bit_vector);
}

/// Eight bytes read as a `u64` weigh in big-endian order.
proof fn lemma_read_u64_weighs(b0: u8, b1: u8, b2: u8, b3: u8, b4: u8, b5: u8, b6: u8, b7: u8)
    ensures
        ((b0 as u64) << 56u64) | ((b1 as u64) << 48u64) | ((b2 as u64) << 40u64) | ((b3 as u64)
            << 32u64) | ((b4 as u64) << 24u64) | ((b5 as u64) << 16u64) | ((b6 as u64) << 8u64) | (
        b7 as u64) == b0 * 0x100000000000000 + b1 * 0x1000000000000 + b2 * 0x10000000000 + b3
            * 0x100000000 + b4 * 0x1000000 + b5 * 0x10000 + b6 * 0x100 + b7,
{
    assert(((b0 as u64) << 56u64) | ((b1 as u64) << 48u64) | ((b2 as u64) << 40u64) | ((b3 as u64)
        << 32u64) | ((b4 as u64) << 24u64) | ((b5 as u64) << 16u64) | ((b6 as u64) << 8u64) | (
    b7 as u64) == b0 * 0x100000000000000 + b1 * 0x1000000000000 + b2 * 0x10000000000 + b3
        * 0x100000000 + b4 * 0x1000000 + b5 * 0x10000 + b6 * 0x100 + b7) by (bit_vector);
}

/// Appending a record to a list appends its bytes.
proof fn lemma_entries_bytes_push(es: Seq<(Seq<char>, Seq<u8>)>, e: (Seq<char>, Seq<u8>))
    ensures
        entries_bytes(es.push(e)) == entries_bytes(es) + entry_bytes(e),
    decreases es.len(),
{
    if es.len() == 0 {
        assert(es.push(e).drop_first() =~= es);
        assert(entries_bytes(es.push(e)) =~= entries_bytes(es) + entry_bytes(e));
    } else {
        assert(es.push(e).drop_first() =~= es.drop_first().push(e));
        lemma_entries_bytes_push(es.drop_first(), e);
        assert(entries_bytes(es.push(e)) =~= entries_bytes(es) + entry_bytes(e));
    }
}

/// Law: an archive with one more asset is the archive without it followed
/// by that asset's record: four bytes that weigh, in big-endian order, to
/// the byte length of its path; the path's UTF-8 bytes; eight bytes that
/// weigh to the length of its contents; then its contents exactly as given
/// (the lengths fitting the format).
pub proof fn law_asset_record_layout(
    name: Seq<char>,
    id: Seq<char>,
    code: Seq<u8>,
    files: Seq<(Seq<char>, Seq<u8>)>,
    path: Seq<char>,
    data: Seq<u8>,
)
    requires
        encode_utf8(path).len() <= u32::MAX,
        data.len() <= u64::MAX,
    ensures
        ({
            let before = archive_bytes(name, id, code, files);
            let after = archive_bytes(name, id, code, files.push((path, data)));
            let p = encode_utf8(path);
            let k = before.len() as int;
            let q = k + 4 + p.len();
            &&& after.len() == q + 8 + data.len()
            &&& after.subrange(0, k) == before
            &&& weight4(after, k) == p.len()
            &&& after.subrange(k + 4, q) == p
            &&& weight8(after, q) == data.len()
            &&& after.subrange(q + 8, after.len() as int) == data
        }),
{
    let e = (path, data);
    lemma_entries_bytes_push(files, e);
    let before = archive_bytes(name, id, code, files);
    let after = archive_bytes(name, id, code, files.push(e));
    let p = encode_utf8(path);
    let lp = p.len() as u32;
    let ld = data.len() as u64;
    lemma_u32_bytes_weigh(lp);
    lemma_u64_bytes_weigh(ld);
    let k = before.len() as int;
    let q = k + 4 + p.len();
    let b4 = be_bytes_u32(lp);
    let b8 = be_bytes_u64(ld);
    assert(after =~= before + (b4 + p + (b8 + data)));
    assert(after.subrange(0, k) =~= before);
    assert(after.subrange(k + 4, q) =~= p);
    assert(after.subrange(q + 8, after.len() as int) =~= data);
    assert(after[k] == b4[0] && after[k + 1] == b4[1] && after[k + 2] == b4[2] && after[k + 3]
        == b4[3]);
    assert(after[q] == b8[0] && after[q + 1] == b8[1] && after[q + 2] == b8[2] && after[q + 3]
        == b8[3]);
    assert(after[q + 4] == b8[4] && after[q + 5] == b8[5] && after[q + 6] == b8[6] && after[q
        + 7] == b8[7]);
}

/// Law: reading asset records takes each asset's contents as exactly the
/// bytes stored after its length field: a record made of four bytes that
/// weigh, in big-endian order, to the length of a UTF-8 path, that path,
/// eight bytes that weigh to the length of some data, and that data, in
/// front of well-formed records, reads as that path with that data,
/// followed by what those records hold.
pub proof fn law_asset_record_read_as_stored(
    path_len: Seq<u8>,
    path: Seq<u8>,
    data_len: Seq<u8>,
    data: Seq<u8>,
    rest: Seq<u8>,
)
    requires
        path_len.len() == 4,
        weight4(path_len, 0) == path.len(),
        valid_utf8(path),
        data_len.len() == 8,
        weight8(data_len, 0) == data.len(),
        decode_entries(rest) is Some,
    ensures
        decode_entries(path_len + path + data_len + data + rest) == Some(
            seq![(decode_utf8(path), data)] + decode_entries(rest)->0,
        ),
{
    let all = path_len + path + data_len + data + rest;
    lemma_read_u32_weighs(path_len[0], path_len[1], path_len[2], path_len[3]);
    assert(all[0] == path_len[0] && all[1] == path_len[1] && all[2] == path_len[2] && all[3]
        == path_len[3]);
    assert(be_value_u32(all) == path.len());
    let r1 = all.skip(4);
    assert(r1 =~= path + data_len + data + rest);
    assert(r1.take(path.len() as int) =~= path);
    let r2 = r1.skip(path.len() as int);
    assert(r2 =~= data_len + data + rest);
    lemma_read_u64_weighs(
        data_len[0],
        data_len[1],
        data_len[2],
        data_len[3],
        data_len[4],
        data_len[5],
        data_len[6],
        data_len[7],
    );
    assert(r2[0] == data_len[0] && r2[1] == data_len[1] && r2[2] == data_len[2] && r2[3]
        == data_len[3]);
    assert(r2[4] == data_len[4] && r2[5] == data_len[5] && r2[6] == data_len[6] && r2[7]
        == data_len[7]);
    assert(be_value_u64(r2) == data.len());
    let r3 = r2.skip(8);
    assert(r3 =~= data + rest);
    assert(r3.take(data.len() as int) =~= data);
    assert(r3.skip(data.len() as int) =~= rest);
}

/// Law: an archive starts with the game's name, id and Lua source, each
/// as a length then the bytes themselves: four bytes that weigh, in
/// big-endian order, to the UTF-8 length of the name, the name's UTF-8
/// bytes; the same for the id; eight bytes that weigh to the length of the
/// Lua source, then the source exactly as given. With no assets, that is
/// the whole archive (the lengths fitting the format).
pub proof fn law_archive_header_layout(
    name: Seq<char>,
    id: Seq<char>,
    code: Seq<u8>,
    files: Seq<(Seq<char>, Seq<u8>)>,
)
    requires
        encode_utf8(name).len() <= u32::MAX,
        encode_utf8(id).len() <= u32::MAX,
        code.len() <= u64::MAX,
    ensures
        ({
            let a = archive_bytes(name, id, code, files);
            let n = encode_utf8(name);
            let i = encode_utf8(id);
            let p = 4 + n.len() as int;
            let q = p + 4 + i.len() as int;
            let r = q + 8 + code.len() as int;
            &&& r <= a.len()
            &&& weight4(a, 0) == n.len()
            &&& a.subrange(4, p) == n
            &&& weight4(a, p) == i.len()
            &&& a.subrange(p + 4, q) == i
            &&& weight8(a, q) == code.len()
            &&& a.subrange(q + 8, r) == code
            &&& files.len() == 0 ==> a.len() == r
        }),
{
    let a = archive_bytes(name, id, code, files);
    let n = encode_utf8(name);
    let i = encode_utf8(id);
    let p = 4 + n.len() as int;
    let q = p + 4 + i.len() as int;
    let r = q + 8 + code.len() as int;
    let bn = be_bytes_u32(n.len() as u32);
    let bi = be_bytes_u32(i.len() as u32);
    let bc = be_bytes_u64(code.len() as u64);
    lemma_u32_bytes_weigh(n.len() as u32);
    lemma_u32_bytes_weigh(i.len() as u32);
    lemma_u64_bytes_weigh(code.len() as u64);
    assert(a =~= bn + n + (bi + i) + (bc + code) + entries_bytes(files));
    assert(a.subrange(4, p) =~= n);
    assert(a.subrange(p + 4, q) =~= i);
    assert(a.subrange(q + 8, r) =~= code);
    assert(a[0] == bn[0] && a[1] == bn[1] && a[2] == bn[2] && a[3] == bn[3]);
    assert(a[p] == bi[0] && a[p + 1] == bi[1] && a[p + 2] == bi[2] && a[p + 3] == bi[3]);
    assert(a[q] == bc[0] && a[q + 1] == bc[1] && a[q + 2] == bc[2] && a[q + 3] == bc[3]);
    assert(a[q + 4] == bc[4] && a[q + 5] == bc[5] && a[q + 6] == bc[6] && a[q + 7] == bc[7]);
    if files.len() == 0 {
        assert(entries_bytes(files) =~= Seq::<u8>::empty());
    }
}

/// A text field stored as four bytes weighing to its length, then its
/// UTF-8 bytes, is read as that text, leaving what follows.
proof fn lemma_text_field_read(len: Seq<u8>, body: Seq<u8>, rest: Seq<u8>)
    requires
        len.len() == 4,
        weight4(len, 0) == body.len(),
        valid_utf8(body),
    ensures
        take_string_field(len + body + rest) == Some((decode_utf8(body), rest)),
{
    let all = len + body + rest;
    lemma_read_u32_weighs(len[0], len[1], len[2], len[3]);
    assert(all[0] == len[0] && all[1] == len[1] && all[2] == len[2] && all[3] == len[3]);
    assert(be_value_u32(all) == body.len());
    let r = all.skip(4);
    assert(r =~= body + rest);
    assert(r.take(body.len() as int) =~= body);
    assert(r.skip(body.len() as int) =~= rest);
}

/// A blob stored as eight bytes weighing to its length, then its bytes, is
/// read as exactly those bytes, leaving what follows.
proof fn lemma_blob_field_read(len: Seq<u8>, body: Seq<u8>, rest: Seq<u8>)
    requires
        len.len() == 8,
        weight8(len, 0) == body.len(),
    ensures
        take_blob_field(len + body + rest) == Some((body, rest)),
{
    let all = len + body + rest;
    lemma_read_u64_weighs(len[0], len[1], len[2], len[3], len[4], len[5], len[6], len[7]);
    assert(all[0] == len[0] && all[1] == len[1] && all[2] == len[2] && all[3] == len[3]);
    assert(all[4] == len[4] && all[5] == len[5] && all[6] == len[6] && all[7] == len[7]);
    assert(be_value_u64(all) == body.len());
    let r = all.skip(8);
    assert(r =~= body + rest);
    assert(r.take(body.len() as int) =~= body);
    assert(r.skip(body.len() as int) =~= rest);
}

/// Law: reading an archive takes the name, the id and the Lua source as
/// exactly the bytes stored after their length fields: a header made of
/// four bytes that weigh, in big-endian order, to the length of a UTF-8
/// name, that name, the same for an id, eight bytes that weigh to the
/// length of a UTF-8 source and that source, in front of well-formed asset
/// records, reads as that name, id and source, with the assets those
/// records hold.
pub proof fn law_archive_read_as_stored(
    name_len: Seq<u8>,
    name: Seq<u8>,
    id_len: Seq<u8>,
    id: Seq<u8>,
    code_len: Seq<u8>,
    code: Seq<u8>,
    rest: Seq<u8>,
)
    requires
        name_len.len() == 4,
        weight4(name_len, 0) == name.len(),
        valid_utf8(name),
        id_len.len() == 4,
        weight4(id_len, 0) == id.len(),
        valid_utf8(id),
        code_len.len() == 8,
        weight8(code_len, 0) == code.len(),
        valid_utf8(code),
        decode_entries(rest) is Some,
    ensures
        decode_archive(name_len + name + id_len + id + code_len + code + rest) == Some(
            ArchiveContents {
                name: decode_utf8(name),
                id: decode_utf8(id),
                code: decode_utf8(code),
                files: decode_entries(rest)->0,
            },
        ),
{
    let r1 = id_len + id + code_len + code + rest;
    let r3 = code_len + code + rest;
    assert(name_len + name + id_len + id + code_len + code + rest =~= name_len + name + r1);
    assert(r1 =~= id_len + id + r3);
    lemma_text_field_read(name_len, name, r1);
    lemma_text_field_read(id_len, id, r3);
    lemma_blob_field_read(code_len, code, rest);
}

/// Builds the archive of a game from its name, its id, the bytes of its
/// Lua source file and its asset files (path and contents), in that order.
pub fn encode_lora(
    name: &String,
    id: &String,
    code: &[u8],
    files: &Vec<(String, Vec<u8>)>,
) -> (bytes: Vec<u8>)
    ensures
        bytes@ == archive_bytes(name@, id@, code@, entries_view(files@)),
{
    let mut bytes: Vec<u8> = Vec::new();
    write_string(&mut bytes, name);
    write_string(&mut bytes, id);
    write_file(&mut bytes, code);
    let ghost head = bytes@;
    let ghost es = entries_view(files@);
    assert(es.take(0) =~= Seq::<(Seq<char>, Seq<u8>)>::empty());
    let n = files.len();
    let mut i: usize = 0;
    while i < n
        invariant
            n == files@.len(),
            es == entries_view(files@),
            i <= n,
            bytes@ == head + entries_bytes(es.take(i as int)),
        decreases n - i,
    {
        let ghost before = bytes@;
        write_string(&mut bytes, &files[i].0);
        write_file(&mut bytes, files[i].1.as_slice());
        proof {
            assert(es.take(i + 1) =~= es.take(i as int).push(es[i as int]));
            lemma_entries_bytes_push(es.take(i as int), es[i as int]);
            assert(bytes@ =~= head + entries_bytes(es.take(i + 1)));
        }
        i = i + 1;
    }
    assert(es.take(n as int) =~= es);
    assert(bytes@ =~= archive_bytes(name@, id@, code@, es));
    bytes
}

/// Whether the first `n` bytes of `data` are valid UTF-8.
fn utf8_prefix_valid(data: &Vec<u8>, n: u64) -> (ok: bool)
    requires
        n <= data@.len(),
    ensures
        ok == valid_utf8(data@.take(n as int)),
{
    let len = data.len();
    assert(n <= len);
    let prefix = &data.as_slice()[0..n as usize];
    assert(prefix@ =~= data@.take(n as int));
    str_from_utf8(prefix).is_some()
}

/// Reads an archive. Gives `None` exactly where `data` is not a
/// well-formed archive; otherwise the name, the id, the Lua source and
/// the table of asset files, where a later record for a path replaces an
/// earlier one.
pub fn decode_lora(data: Vec<u8>) -> (r: Option<(String, String, String, LoraFiles)>)
    ensures
        match decode_archive(data@) {
            None => r is None,
            Some(a) => r matches Some((name, id, code, files)) && name@ == a.name && id@ == a.id
                && code@ == a.code && files@ == files_map(a.files),
        },
{
    let ghost orig = data@;
    let mut lorafile = data;
    if lorafile.len() < 4 {
        return None;
    }
    let name_size = read_u32(&mut lorafile);
    if name_size as u64 > lorafile.len() as u64 || !utf8_prefix_valid(&lorafile, name_size as u64) {
        return None;
    }
    let name = read_string(&mut lorafile, name_size as u64);
    if lorafile.len() < 4 {
        return None;
    }
    let id_size = read_u32(&mut lorafile);
    if id_size as u64 > lorafile.len() as u64 || !utf8_prefix_valid(&lorafile, id_size as u64) {
        return None;
    }
    let id = read_string(&mut lorafile, id_size as u64);
    if lorafile.len() < 8 {
        return None;
    }
    let code_size = read_u64(&mut lorafile);
    if code_size > lorafile.len() as u64 || !utf8_prefix_valid(&lorafile, code_size) {
        return None;
    }
    let code = read_string(&mut lorafile, code_size);
    let ghost entries_start = lorafile@;
    let ghost mut acc: Seq<(Seq<char>, Seq<u8>)> = seq![];
    let mut files = LoraFiles::new();
    assert(decode_archive(orig) == match decode_entries(entries_start) {
        Some(es) => Some(ArchiveContents { name: name@, id: id@, code: code@, files: es }),
        None => None::<ArchiveContents>,
    });
    while !lorafile.is_empty()
        invariant
            orig == data@,
            decode_archive(orig) == match decode_entries(entries_start) {
                Some(es) => Some(ArchiveContents { name: name@, id: id@, code: code@, files: es }),
                None => None::<ArchiveContents>,
            },
            decode_entries(entries_start) == match decode_entries(lorafile@) {
                Some(es) => Some(acc + es),
                None => None::<Seq<(Seq<char>, Seq<u8>)>>,
            },
            files@ == files_map(acc),
        decreases lorafile@.len(),
    {
        let ghost cur = lorafile@;
        if lorafile.len() < 4 {
            return None;
        }
        let path_size = read_u32(&mut lorafile) as u64;
        if path_size > lorafile.len() as u64 || !utf8_prefix_valid(&lorafile, path_size) {
            return None;
        }
        let path = read_string(&mut lorafile, path_size);
        if lorafile.len() < 8 {
            return None;
        }
        let data_size = read_u64(&mut lorafile);
        if data_size > lorafile.len() as u64 {
            return None;
        }
        let bytes = read_bytes(&mut lorafile, data_size);
        proof {
            let e = (path@, bytes@);
            assert(acc.push(e).drop_last() =~= acc);
            match decode_entries(lorafile@) {
                Some(es) => {
                    assert(acc + (seq![e] + es) =~= acc.push(e) + es);
                },
                None => {},
            }
            acc = acc.push(e);
        }
        files.insert(path, bytes);
    }
    assert(acc + seq![] =~= acc);
    Some((name, id, code, files))
}

/// Reads a well-formed archive: the name, the id, the Lua source and the
/// table of asset files, where a later record for a path replaces an
/// earlier one.
pub fn parse_lora(data: Vec<u8>) -> (r: (String, String, String, LoraFiles))
    requires
        decode_archive(data@) is Some,
    ensures
        r.0@ == decode_archive(data@)->0.name,
        r.1@ == decode_archive(data@)->0.id,
        r.2@ == decode_archive(data@)->0.code,
        r.3@ == files_map(decode_archive(data@)->0.files),
{
    match decode_lora(data) {
        Some(r) => r,
        None => (String::new(), String::new(), String::new(), LoraFiles::new()),
    }
}

} // verus!
