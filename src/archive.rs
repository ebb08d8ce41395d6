//! The boot image archive: one "newc" cpio record per entry, inodes
//! numbered from 1 in order, owner forced to root, closed by the trailer
//! record, the whole compressed with zstd.
use vstd::prelude::*;
use vstd::utf8::{encode_utf8, encode_scalar};

verus! {

/// The kind of an archive entry.
#[derive(PartialEq, Eq, Structural, Clone, Copy, Debug)]
pub enum EntryKind {
    Regular,
    Symlink,
    Directory,
}

/// What an entry holds.
pub struct EntryView {
    pub name: Seq<char>,
    pub kind: EntryKind,
    pub gid: u32,
    pub mode: u32,
    pub payload: Seq<u8>,
}

/// One entry of the tree to pack: file bytes for a regular file, the link
/// target for a symlink; a directory carries nothing.
pub struct SourceEntry {
    pub name: String,
    pub kind: EntryKind,
    pub gid: u32,
    pub mode: u32,
    pub payload: Vec<u8>,
}

impl View for SourceEntry {
    type V = EntryView;

    open spec fn view(&self) -> EntryView {
        EntryView { name: self.name@, kind: self.kind, gid: self.gid, mode: self.mode, payload: self.payload@ }
    }
}

pub open spec fn entry_views(s: Seq<SourceEntry>) -> Seq<EntryView> {
    s.map_values(|e: SourceEntry| e@)
}

/// Why an archive could not be produced.
#[derive(PartialEq, Eq, Structural, Clone, Copy, Debug)]
pub enum PackError {
    /// More entries than 32-bit inode numbers can tell apart.
    TooManyEntries,
    /// A payload or a name longer than a 32-bit size field holds.
    EntryTooLarge,
}

/// Compression level of the image.
pub const COMPRESSION_LEVEL: i32 = 10;

/// Names of at least this many characters are refused: their encoding
/// could overflow the 32-bit name size field.
pub const MAX_NAME_CHARS: usize = 0x3fff_fff0;

/// File-type bits of the mode field.
pub open spec fn type_bits(k: EntryKind) -> u32 {
    match k {
        EntryKind::Regular => 0o100000u32,
        EntryKind::Symlink => 0o120000u32,
        EntryKind::Directory => 0o040000u32,
    }
}

/// The permission bits of `mode` with the file-type bits of `k`.
pub open spec fn typed_mode(mode: u32, k: EntryKind) -> u32 {
    (mode & !0o170000u32) | type_bits(k)
}

/// The bytes that an entry's record carries.
pub open spec fn record_data(e: EntryView) -> Seq<u8> {
    if e.kind == EntryKind::Directory {
        Seq::empty()
    } else {
        e.payload
    }
}

pub open spec fn pow16(n: nat) -> int
    decreases n,
{
    if n == 0 {
        1
    } else {
        16 * pow16((n - 1) as nat)
    }
}

/// ASCII of a lower-case hex digit.
pub open spec fn hex_digit(v: int) -> u8 {
    if v < 10 {
        (48 + v) as u8
    } else {
        (87 + v) as u8
    }
}

/// `x` as eight lower-case hex digits.
pub open spec fn hex8(x: int) -> Seq<u8> {
    Seq::new(8, |i: int| hex_digit((x / pow16((7 - i) as nat)) % 16))
}

/// The zero bytes that pad `n` bytes to a multiple of four.
pub open spec fn pad4(n: int) -> Seq<u8> {
    Seq::new(((4 - n % 4) % 4) as nat, |i: int| 0u8)
}

/// The "new ascii" magic number `070701`.
pub open spec fn newc_magic() -> Seq<u8> {
    seq![48u8, 55u8, 48u8, 55u8, 48u8, 49u8]
}

/// A "new ascii" header: magic, inode, mode, uid, gid, one link, mtime 0,
/// file size, device numbers 0, name size (with its NUL), checksum 0, then
/// the name, a NUL and padding to four bytes.
pub open spec fn newc_header(name: Seq<u8>, ino: u32, mode: u32, uid: u32, gid: u32, size: int) -> Seq<u8> {
    newc_magic() + hex8(ino as int) + hex8(mode as int) + hex8(uid as int) + hex8(gid as int) + hex8(1) + hex8(0)
        + hex8(size) + hex8(0) + hex8(0) + hex8(0) + hex8(0) + hex8(name.len() as int + 1) + hex8(0) + name + seq![0u8]
        + pad4(110 + name.len() as int + 1)
}

/// A whole record: header, data, and padding of the data to four bytes.
pub open spec fn newc_record(name: Seq<u8>, ino: u32, mode: u32, uid: u32, gid: u32, data: Seq<u8>) -> Seq<u8> {
    newc_header(name, ino, mode, uid, gid, data.len() as int) + data + pad4(data.len() as int)
}

/// The archive `body` closed by the `TRAILER!!!` record.
pub open spec fn newc_terminated(body: Seq<u8>) -> Seq<u8> {
    body + newc_record("TRAILER!!!"@.map_values(|c: char| c as u8), 0, 0, 0, 0, Seq::empty())
}

pub uninterp spec fn zstd_frame(data: Seq<u8>, level: i32) -> Seq<u8>;

/// What a zstd stream decodes to; `None` for data that is no valid stream.
pub uninterp spec fn zstd_decoded(data: Seq<u8>) -> Option<Seq<u8>>;

pub open spec fn opt_bytes(r: Option<Vec<u8>>) -> Option<Seq<u8>> {
    match r {
        Some(b) => Some(b@),
        None => None,
    }
}

/// The record of the `i`-th entry (inode `i + 1`).
pub open spec fn entry_record(e: EntryView, i: int) -> Seq<u8> {
    newc_record(encode_utf8(e.name), (i + 1) as u32, typed_mode(e.mode, e.kind), 0, e.gid, record_data(e))
}

/// The records of all entries, in order, without the trailer.
pub open spec fn archive_body(entries: Seq<EntryView>) -> Seq<u8>
    decreases entries.len(),
{
    if entries.len() == 0 {
        Seq::empty()
    } else {
        archive_body(entries.drop_last()) + entry_record(entries.last(), entries.len() - 1)
    }
}

/// The uncompressed archive.
pub open spec fn archive_spec(entries: Seq<EntryView>) -> Seq<u8> {
    newc_terminated(archive_body(entries))
}

/// An entry whose payload or name does not fit its 32-bit size field.
pub open spec fn too_large(e: EntryView) -> bool {
    record_data(e).len() > u32::MAX || e.name.len() >= MAX_NAME_CHARS
}

pub open spec fn oversized(entries: Seq<EntryView>) -> bool {
    exists|i: int| 0 <= i < entries.len() && too_large(#[trigger] entries[i])
}

/// Entries that the archive can hold.
pub open spec fn packable(entries: Seq<EntryView>) -> bool {
    entries.len() < u32::MAX && !oversized(entries)
}

/// The UTF-8 encoding takes at most four bytes per character.
pub proof fn lemma_utf8_len(chars: Seq<char>)
    ensures
        encode_utf8(chars).len() <= 4 * chars.len(),
    decreases chars.len(),
{
    if chars.len() > 0 {
        assert(encode_scalar(chars[0] as u32).len() <= 4);
        lemma_utf8_len(chars.drop_first());
    }
}

/// Relies on `cpio::NewcBuilder`: the "new ascii" header with these
/// fields (one link, mtime and device numbers 0), the data and the padding,
/// written into an empty vector, which cannot fail.
#[verifier::external_body]
fn write_newc_record(name: &str, ino: u32, mode: u32, uid: u32, gid: u32, data: &[u8]) -> (r: Option<Vec<u8>>)
    requires
        data@.len() <= u32::MAX,
        encode_utf8(name@).len() + 1 <= u32::MAX,
    ensures
        r.is_some(),
        r.unwrap()@ == newc_record(encode_utf8(name@), ino, mode, uid, gid, data@),
{
    let builder = cpio::NewcBuilder::new(name).ino(ino).mode(mode).uid(uid).gid(gid);
    let mut writer = builder.write(Vec::new(), data.len() as u32);
    std::io::Write::write_all(&mut writer, data).ok()?;
    writer.finish().ok()
}

/// Relies on `cpio::newc::trailer`: appends the end-of-archive record to
/// what was written so far, which cannot fail on a vector.
#[verifier::external_body]
fn write_newc_trailer(body: Vec<u8>) -> (r: Option<Vec<u8>>)
    ensures
        r.is_some(),
        r.unwrap()@ == newc_terminated(body@),
{
    cpio::newc::trailer(body).ok()
}

/// Relies on `zstd::stream::encode_all`: one zstd stream of the data at a
/// valid level, which decodes back to the data.
#[verifier::external_body]
fn zstd_compress(data: &[u8], level: i32) -> (r: Option<Vec<u8>>)
    requires
        1 <= level <= 19,
    ensures
        r.is_some(),
        r.unwrap()@ == zstd_frame(data@, level),
        zstd_decoded(r.unwrap()@) == Some(data@),
{
    zstd::stream::encode_all(data, level).ok()
}

/// Relies on `zstd::stream::decode_all`: the bytes that a zstd stream
/// holds; `None` where the data is no valid stream.
#[verifier::external_body]
pub(crate) fn zstd_decompress(data: &[u8]) -> (r: Option<Vec<u8>>)
    ensures
        opt_bytes(r) == zstd_decoded(data@),
{
    zstd::stream::decode_all(data).ok()
}

/// The mode field of an entry: its permission bits with the type of `kind`.
pub fn entry_mode(mode: u32, kind: EntryKind) -> (r: u32)
    ensures
        r == typed_mode(mode, kind),
{
    let bits: u32 = match kind {
        EntryKind::Regular => 0o100000,
        EntryKind::Symlink => 0o120000,
        EntryKind::Directory => 0o040000,
    };
    (mode & !0o170000u32) | bits
}

/// Serialises the entries into an uncompressed archive: record `i` gets
/// inode `i + 1` and owner 0, and the trailer closes it.
pub fn archive_bytes(entries: &Vec<SourceEntry>) -> (r: Result<Vec<u8>, PackError>)
    ensures
        packable(entry_views(entries@)) ==> r.is_ok(),
        r matches Ok(b) ==> b@ == archive_spec(entry_views(entries@)),
        (r == Err::<Vec<u8>, PackError>(PackError::TooManyEntries)) == (entries@.len() >= u32::MAX),
        (r == Err::<Vec<u8>, PackError>(PackError::EntryTooLarge)) == (entries@.len() < u32::MAX
            && oversized(entry_views(entries@))),
{
    if entries.len() >= u32::MAX as usize {
        return Err(PackError::TooManyEntries);
    }
    let ghost ev = entry_views(entries@);
    let mut i: usize = 0;
    while i < entries.len()
        invariant
            i <= entries@.len() < u32::MAX,
            ev == entry_views(entries@),
            forall|k: int| 0 <= k < i ==> !too_large(#[trigger] ev[k]),
        decreases entries@.len() - i,
    {
        let e = &entries[i];
        let big = match e.kind {
            EntryKind::Directory => false,
            _ => e.payload.len() > u32::MAX as usize,
        };
        assert(ev[i as int] == e@);
        if big || e.name.unicode_len() >= MAX_NAME_CHARS {
            return Err(PackError::EntryTooLarge);
        }
        i = i + 1;
    }
    assert(!oversized(ev));
    let mut out: Vec<u8> = Vec::new();
    let mut i: usize = 0;
    let empty: Vec<u8> = Vec::new();
    assert(ev.subrange(0, 0) =~= Seq::<EntryView>::empty());
    while i < entries.len()
        invariant
            i <= entries@.len() < u32::MAX,
            ev == entry_views(entries@),
            empty@.len() == 0,
            forall|k: int| 0 <= k < ev.len() ==> !too_large(#[trigger] ev[k]),
            out@ == archive_body(ev.subrange(0, i as int)),
        decreases entries@.len() - i,
    {
        let e = &entries[i];
        assert(ev[i as int] == e@);
        assert(!too_large(ev[i as int]));
        let data: &[u8] = match e.kind {
            EntryKind::Directory => empty.as_slice(),
            _ => e.payload.as_slice(),
        };
        assert(data@ == record_data(e@));
        proof {
            lemma_utf8_len(e.name@);
        }
        let mode = entry_mode(e.mode, e.kind);
        let mut b = write_newc_record(e.name.as_str(), (i + 1) as u32, mode, 0, e.gid, data).unwrap();
        assert(ev.subrange(0, i + 1).drop_last() =~= ev.subrange(0, i as int));
        out.append(&mut b);
        i = i + 1;
    }
    assert(ev.subrange(0, i as int) =~= ev);
    Ok(write_newc_trailer(out).unwrap())
}

/// Packs the entries into the compressed boot image.
pub fn pack(entries: &Vec<SourceEntry>) -> (r: Result<Vec<u8>, PackError>)
    ensures
        packable(entry_views(entries@)) ==> r.is_ok(),
        r matches Ok(b) ==> b@ == zstd_frame(archive_spec(entry_views(entries@)), COMPRESSION_LEVEL),
        r matches Ok(b) ==> zstd_decoded(b@) == Some(archive_spec(entry_views(entries@))),
        (r == Err::<Vec<u8>, PackError>(PackError::TooManyEntries)) == (entries@.len() >= u32::MAX),
        (r == Err::<Vec<u8>, PackError>(PackError::EntryTooLarge)) == (entries@.len() < u32::MAX
            && oversized(entry_views(entries@))),
{
    let raw = archive_bytes(entries)?;
    Ok(zstd_compress(raw.as_slice(), COMPRESSION_LEVEL).unwrap())
}

/// The record of entry `i` carries, at fixed places: the magic, inode
/// `i + 1`, the permission bits of the entry with its file type, owner 0,
/// its group, the size of its data, its name, and then its data: the file
/// bytes, the link target, or nothing for a directory.
pub proof fn lemma_entry_record_layout(e: EntryView, i: int)
    ensures
        ({
            let rec = entry_record(e, i);
            let name = encode_utf8(e.name);
            let nl = name.len() as int;
            let hlen = 110 + nl + 1 + pad4(110 + nl + 1).len();
            let data = record_data(e);
            let dl = data.len() as int;
            &&& rec.subrange(0, 6) == newc_magic()
            &&& rec.subrange(6, 14) == hex8(((i + 1) as u32) as int)
            &&& rec.subrange(14, 22) == hex8(typed_mode(e.mode, e.kind) as int)
            &&& rec.subrange(22, 30) == hex8(0)
            &&& rec.subrange(30, 38) == hex8(e.gid as int)
            &&& rec.subrange(54, 62) == hex8(data.len() as int)
            &&& rec.subrange(110, 110 + nl) == name
            &&& rec.subrange(hlen, hlen + dl) == data
        }),
        typed_mode(e.mode, e.kind) & 0o7777u32 == e.mode & 0o7777u32,
        typed_mode(e.mode, e.kind) & 0o170000u32 == type_bits(e.kind),
{
    let name = encode_utf8(e.name);
    let data = record_data(e);
    let h = newc_header(name, (i + 1) as u32, typed_mode(e.mode, e.kind), 0, e.gid, data.len() as int);
    let rec = entry_record(e, i);
    assert(rec == h + data + pad4(data.len() as int));
    let nl = name.len() as int;
    let dl = data.len() as int;
    let hlen = 110 + nl + 1 + pad4(110 + nl + 1).len();
    assert(h.len() == hlen);
    assert(rec.subrange(0, 6) =~= newc_magic());
    assert(rec.subrange(6, 14) =~= hex8(((i + 1) as u32) as int));
    assert(rec.subrange(14, 22) =~= hex8(typed_mode(e.mode, e.kind) as int));
    assert(rec.subrange(22, 30) =~= hex8(0));
    assert(rec.subrange(30, 38) =~= hex8(e.gid as int));
    assert(rec.subrange(54, 62) =~= hex8(data.len() as int));
    assert(rec.subrange(110, 110 + nl) =~= name);
    assert(rec.subrange(hlen, hlen + dl) =~= data);
    let m = e.mode;
    let t = type_bits(e.kind);
    assert(t & 0o7777u32 == 0 && t & 0o170000u32 == t) by {
        assert(t == 0o100000u32 || t == 0o120000u32 || t == 0o040000u32);
        assert(0o100000u32 & 0o7777u32 == 0 && 0o100000u32 & 0o170000u32 == 0o100000u32) by (bit_vector);
        assert(0o120000u32 & 0o7777u32 == 0 && 0o120000u32 & 0o170000u32 == 0o120000u32) by (bit_vector);
        assert(0o040000u32 & 0o7777u32 == 0 && 0o040000u32 & 0o170000u32 == 0o040000u32) by (bit_vector);
    }
    assert(((m & !0o170000u32) | t) & 0o7777u32 == m & 0o7777u32) by (bit_vector)
        requires
            t & 0o7777u32 == 0,
    ;
    assert(((m & !0o170000u32) | t) & 0o170000u32 == t) by (bit_vector)
        requires
            t & 0o170000u32 == t,
    ;
}

} // verus!
