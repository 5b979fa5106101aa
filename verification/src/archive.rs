//! Decoding a packed filesystem archive: decompress the payload, then
//! parse it into an ordered sequence of entries.
//!
//! Decompression and container parsing are done by outside crates; their
//! results are named by uninterpreted functions of the input bytes, and
//! everything downstream is verified against those names.

use vstd::prelude::*;
use std::io::Read;
use crate::errors::ScanError;
use crate::narinfo::NarInfo;

verus! {

/// The one compression algorithm the decoder supports.
pub const SUPPORTED_COMPRESSION: &'static str = "xz";

/// What kind of member an archive entry is.
#[derive(Debug, Clone, Copy, PartialEq, Eq, Structural)]
pub enum EntryKind {
    File,
    Directory,
    Symlink,
}

/// One member of a decoded archive. Only file entries carry bytes; the
/// root entry of an archive has an empty member path.
#[derive(Debug)]
pub struct NarEntry {
    pub path: String,
    pub kind: EntryKind,
    pub data: Vec<u8>,
}

/// Mathematical image of an archive entry.
#[verifier::ext_equal]
pub struct NarEntryView {
    pub path: Seq<char>,
    pub kind: EntryKind,
    pub data: Seq<u8>,
}

impl View for NarEntry {
    type V = NarEntryView;

    open spec fn view(&self) -> NarEntryView {
        NarEntryView { path: self.path@, kind: self.kind, data: self.data@ }
    }
}

/// The stream the compressed bytes decompress to, `None` when they are
/// not a well-formed compressed stream.
pub uninterp spec fn xz_plain(compressed: Seq<u8>) -> Option<Seq<u8>>;

/// The entries a byte buffer parses to as a packed filesystem archive,
/// `None` when it is malformed or truncated.
pub uninterp spec fn nar_entries_of(bytes: Seq<u8>) -> Option<Seq<NarEntryView>>;

/// Ceiling on how far the descriptor's size may pre-size a buffer: the
/// descriptor is untrusted, and an absurd hint must not be handed to the
/// allocator.
pub const SIZE_HINT_CAP: usize = 0x4000000;

/// Relies on xz2's XzDecoder: the decompressed stream is a function of
/// the compressed bytes alone. `size_hint` only pre-sizes the output
/// buffer, and is clamped so an absurd descriptor cannot make the
/// allocator reject the capacity outright.
#[verifier::external_body]
fn xz_decompress(compressed: &Vec<u8>, size_hint: usize) -> (r: Option<Vec<u8>>)
    ensures
        match r {
            Some(out) => xz_plain(compressed@) == Some(out@),
            None => xz_plain(compressed@) is None,
        },
{
    let mut out = Vec::with_capacity(size_hint.min(SIZE_HINT_CAP));
    let mut dec = xz2::read::XzDecoder::new(compressed.as_slice());
    match dec.read_to_end(&mut out) {
        Ok(_) => Some(out),
        Err(_) => None,
    }
}

/// Little-endian value of the eight bytes of `s` starting at `o`.
pub open spec fn le64_at(s: Seq<u8>, o: int) -> int {
    s[o] + s[o + 1] * 0x100 + s[o + 2] * 0x10000 + s[o + 3] * 0x1000000 + s[o + 4] * 0x100000000
        + s[o + 5] * 0x10000000000 + s[o + 6] * 0x1000000000000 + s[o + 7] * 0x100000000000000
}

/// A frame payload of `len` bytes occupies `len` rounded up to a
/// multiple of eight on the wire.
pub open spec fn padded_len(len: int) -> int {
    (len / 8) * 8 + if len % 8 == 0 {
        0int
    } else {
        8int
    }
}

/// Whether a buffer is a well-formed sequence of frames, each an
/// eight-byte little-endian length followed by that many payload bytes,
/// zero-padded to a multiple of eight. The archive wire format is
/// exactly such a frame sequence; a length field that overruns the
/// remaining bytes makes the buffer malformed.
pub open spec fn frames_ok(s: Seq<u8>) -> bool
    decreases s.len(),
{
    if s.len() == 0 {
        true
    } else if s.len() < 8 {
        false
    } else {
        let len = le64_at(s, 0);
        &&& len <= s.len() - 8
        &&& padded_len(len) <= s.len() - 8
        &&& frames_ok(s.skip(8 + padded_len(len)))
    }
}

/// The eight bytes of `bytes` at `o`, read as a little-endian integer.
fn read_le64(bytes: &Vec<u8>, o: usize) -> (r: u64)
    requires
        o + 8 <= bytes@.len(),
    ensures
        r as int == le64_at(bytes@, o as int),
{
    let n = bytes.len();
    proof {
        assert(o + 8 <= n);
    }
    let wide: u128 = (bytes[o] as u128) + (bytes[o + 1] as u128) * 0x100 + (bytes[o + 2] as u128)
        * 0x10000 + (bytes[o + 3] as u128) * 0x1000000 + (bytes[o + 4] as u128) * 0x100000000 + (
    bytes[o + 5] as u128) * 0x10000000000 + (bytes[o + 6] as u128) * 0x1000000000000 + (bytes[o
        + 7] as u128) * 0x100000000000000;
    proof {
        assert(wide <= 0xFFFFFFFFFFFFFFFF);
    }
    wide as u64
}

/// Walk a buffer frame by frame and check that every length field
/// covers only bytes that are actually there.
pub fn check_frames(bytes: &Vec<u8>) -> (r: bool)
    ensures
        r == frames_ok(bytes@),
{
    let n = bytes.len();
    let mut o: usize = 0;
    proof {
        assert(bytes@.skip(0) =~= bytes@);
    }
    while o < n
        invariant
            0 <= o <= n,
            n == bytes@.len(),
            frames_ok(bytes@) == frames_ok(bytes@.skip(o as int)),
        decreases n - o,
    {
        let ghost s = bytes@.skip(o as int);
        proof {
            assert(s.len() == n - o);
            assert forall|t: int| 0 <= t < s.len() implies s[t] == bytes@[o + t] by {}
        }
        if n - o < 8 {
            return false;
        }
        let len64 = read_le64(bytes, o);
        proof {
            assert(le64_at(s, 0) == le64_at(bytes@, o as int));
        }
        let rem = n - o - 8;
        if len64 > rem as u64 {
            return false;
        }
        let len = len64 as usize;
        let padded = len / 8 * 8 + (if len % 8 == 0 {
            0
        } else {
            8
        });
        if padded > rem {
            return false;
        }
        proof {
            assert(padded == padded_len(len64 as int));
            assert(s.skip(8 + padded_len(le64_at(s, 0))) =~= bytes@.skip(o + 8 + padded));
        }
        o = o + 8 + padded;
    }
    proof {
        assert(bytes@.skip(n as int) =~= Seq::<u8>::empty());
    }
    true
}

/// Relies on nix_nar's Decoder: the entry sequence is a function of the
/// archive bytes alone. Directory and symlink entries carry no bytes;
/// the root entry has no path of its own and is given the empty one.
/// The parser trusts length fields when rounding and slicing, so the
/// caller must have screened the frame layout first; on a buffer whose
/// frames check out, every length the parser reads is in bounds and it
/// returns rather than panicking.
#[verifier::external_body]
fn nar_decode(bytes: &Vec<u8>) -> (r: Option<Vec<NarEntry>>)
    requires
        frames_ok(bytes@),
    ensures
        match r {
            Some(es) => nar_entries_of(bytes@) == Some(es@.map_values(|e: NarEntry| e@)),
            None => nar_entries_of(bytes@) is None,
        },
{
    let dec = nix_nar::Decoder::new(bytes.as_slice()).ok()?;
    let mut out = Vec::new();
    for entry in dec.entries().ok()? {
        let e = entry.ok()?;
        let path = e.path.map_or(String::new(), |p| p.into_string());
        let (kind, data) = match e.content {
            nix_nar::Content::Directory => (EntryKind::Directory, Vec::new()),
            nix_nar::Content::Symlink { .. } => (EntryKind::Symlink, Vec::new()),
            nix_nar::Content::File { mut data, .. } => { let mut buf = Vec::new(); data.read_to_end(&mut buf).ok()?; (EntryKind::File, buf) },
        };
        out.push(NarEntry { path, kind, data });
    }
    Some(out)
}

/// Decompress a fetched payload and parse it as a packed filesystem
/// archive.
///
/// Only the supported algorithm is accepted; any other descriptor value
/// fails, carrying the algorithm's name. The descriptor size is used as
/// a capacity hint only, never checked against the actual payload.
pub fn decode_archive(info: &NarInfo, compressed: Vec<u8>) -> (r: Result<Vec<NarEntry>, ScanError>)
    ensures
        match r {
            Ok(es) => {
                &&& info@.compression == SUPPORTED_COMPRESSION@
                &&& xz_plain(compressed@) is Some
                &&& frames_ok(xz_plain(compressed@)->Some_0)
                &&& nar_entries_of(xz_plain(compressed@)->Some_0) == Some(
                    es@.map_values(|e: NarEntry| e@),
                )
            },
            Err(e) => match e {
                ScanError::UnsupportedCompression(c) => info@.compression
                    != SUPPORTED_COMPRESSION@ && c@ == info@.compression,
                ScanError::ArchiveDecompress => info@.compression == SUPPORTED_COMPRESSION@
                    && xz_plain(compressed@) is None,
                ScanError::ArchiveParse => {
                    &&& info@.compression == SUPPORTED_COMPRESSION@
                    &&& xz_plain(compressed@) is Some
                    &&& (!frames_ok(xz_plain(compressed@)->Some_0) || nar_entries_of(
                        xz_plain(compressed@)->Some_0,
                    ) is None)
                },
                _ => false,
            },
        },
{
    let supported = String::from_str(SUPPORTED_COMPRESSION);
    if !info.compression.eq(&supported) {
        return Err(ScanError::UnsupportedCompression(info.compression.clone()));
    }
    let plain = match xz_decompress(&compressed, info.size) {
        Some(p) => p,
        None => {
            return Err(ScanError::ArchiveDecompress);
        },
    };
    if !check_frames(&plain) {
        return Err(ScanError::ArchiveParse);
    }
    match nar_decode(&plain) {
        Some(es) => Ok(es),
        None => Err(ScanError::ArchiveParse),
    }
}

} // verus!
