//! Guest arguments framed in front of the boot image.
//!
//! A guest kernel has no argument vector. The host hands it arguments through
//! the one blob the guest reads at boot: a header is put in front of the
//! filesystem image, and the image itself follows at the next page boundary.
//!
//! ```text
//! | magic "HLCMDLN\0"            8 bytes |
//! | length of the command line   4 bytes, little endian |
//! | command line                 UTF-8, arguments joined by one space |
//! | terminator                   1 zero byte |
//! | padding                      zero bytes up to a multiple of 4096 |
//! | image                        unchanged |
//! ```
//!
//! The arguments are written as given: no separator token is put in front of
//! them. An empty command line gets no header at all. The length field is 32
//! bits wide: of a command line of 4 GiB or more it holds the low 32 bits,
//! and the image still starts at a page boundary.

use vstd::prelude::*;
use vstd::slice::slice_to_vec;
use vstd::slice::slice_subrange;
use vstd::utf8::decode_utf8;
use vstd::utf8::encode_scalar;
use vstd::utf8::encode_utf8;
use vstd::utf8::valid_utf8;
use crate::text::string_from_utf8;

verus! {

/// Size of a page of the guest: the image starts at a multiple of it.
pub const PAGE_SIZE: usize = 4096;

/// Bytes of the header besides the command line: magic, length and terminator.
pub const HEADER_FIXED: usize = 13;

/// The eight bytes that open a header: the ASCII text `HLCMDLN` and a zero.
pub open spec fn magic() -> Seq<u8> {
    seq![0x48u8, 0x4Cu8, 0x43u8, 0x4Du8, 0x44u8, 0x4Cu8, 0x4Eu8, 0x00u8]
}

/// The arguments joined by single spaces; empty for no arguments.
pub open spec fn join_args(args: Seq<Seq<char>>) -> Seq<char>
    decreases args.len(),
{
    if args.len() == 0 {
        Seq::empty()
    } else if args.len() == 1 {
        args[0]
    } else {
        join_args(args.drop_last()) + seq![' '] + args.last()
    }
}

/// The four bytes of the length field: the low 32 bits of `n`, lowest byte
/// first.
pub open spec fn length_field(n: nat) -> Seq<u8> {
    seq![
        (n % 256) as u8,
        (n / 256 % 256) as u8,
        (n / 65536 % 256) as u8,
        (n / 16777216 % 256) as u8,
    ]
}

/// Zero bytes needed after a header of `header_len` bytes to end on a page
/// boundary.
pub open spec fn padding_len(header_len: nat) -> nat {
    ((4096 - header_len % 4096) % 4096) as nat
}

/// `n` zero bytes.
pub open spec fn zeros(n: nat) -> Seq<u8> {
    Seq::new(n, |i: int| 0u8)
}

/// The header that carries the command line `cmdline`.
pub open spec fn header(cmdline: Seq<u8>) -> Seq<u8> {
    magic() + length_field(cmdline.len()) + cmdline + seq![0u8] + zeros(
        padding_len(13 + cmdline.len()),
    )
}

/// The blob handed to the guest for an image and an argument list.
///
/// With an empty command line the image is handed on as it is, and nothing
/// at all where there is no image either. Otherwise the header comes first
/// and the image, if any, follows it.
pub open spec fn encode(image: Option<Seq<u8>>, args: Seq<Seq<char>>) -> Option<Seq<u8>> {
    let cmdline = encode_utf8(join_args(args));
    if cmdline.len() == 0 {
        image
    } else {
        Some(
            header(cmdline) + match image {
                Some(data) => data,
                None => Seq::empty(),
            },
        )
    }
}

/// The argument list as sequences of characters.
pub open spec fn args_view(args: &[String]) -> Seq<Seq<char>> {
    Seq::new(args@.len(), |i: int| args@[i]@)
}

/// An optional image as an optional sequence of bytes.
pub open spec fn image_view(image: Option<&[u8]>) -> Option<Seq<u8>> {
    match image {
        Some(data) => Some(data@),
        None => None,
    }
}

/// An optional blob as an optional sequence of bytes.
pub open spec fn blob_view(blob: Option<Vec<u8>>) -> Option<Seq<u8>> {
    match blob {
        Some(data) => Some(data@),
        None => None,
    }
}

/// UTF-8 encoding distributes over concatenation.
proof fn lemma_encode_concat(a: Seq<char>, b: Seq<char>)
    ensures
        encode_utf8(a + b) == encode_utf8(a) + encode_utf8(b),
    decreases a.len(),
{
    if a.len() == 0 {
        assert(a + b =~= b);
        assert(encode_utf8(a) + encode_utf8(b) =~= encode_utf8(b));
    } else {
        assert((a + b).drop_first() =~= a.drop_first() + b);
        assert((a + b)[0] == a[0]);
        lemma_encode_concat(a.drop_first(), b);
        assert(encode_utf8(a + b) =~= encode_utf8(a) + encode_utf8(b));
    }
}

/// A space is encoded as the single byte 0x20.
proof fn lemma_encode_space()
    ensures
        encode_utf8(seq![' ']) == seq![0x20u8],
{
    let s = seq![' '];
    assert(s.drop_first() =~= Seq::<char>::empty());
    assert(encode_utf8(s.drop_first()) =~= Seq::<u8>::empty());
    assert(' ' as u32 == 0x20u32);
    assert((0x20u32 & 0x7F) as u8 == 0x20u8) by (bit_vector);
    assert(encode_scalar(0x20u32) =~= seq![0x20u8]);
    assert(encode_utf8(s) =~= seq![0x20u8]);
}

/// The UTF-8 bytes of the arguments joined by single spaces.
fn join_bytes(args: &[String]) -> (out: Vec<u8>)
    ensures
        out@ == encode_utf8(join_args(args_view(args))),
{
    let ghost all = args_view(args);
    let mut out: Vec<u8> = Vec::new();
    let mut i: usize = 0;
    while i < args.len()
        invariant
            i <= args.len(),
            all == args_view(args),
            out@ == encode_utf8(join_args(all.take(i as int))),
        decreases args.len() - i,
    {
        let ghost before = out@;
        let ghost done = all.take(i as int);
        let ghost next = all.take(i + 1);
        if i > 0 {
            out.push(0x20u8);
        }
        let piece = args[i].as_str().as_bytes();
        out.extend_from_slice(piece);
        proof {
            assert(next.drop_last() =~= done);
            assert(next.last() == all[i as int]);
            assert(piece@ == encode_utf8(all[i as int]));
            if i == 0 {
                assert(before =~= Seq::<u8>::empty());
                assert(out@ =~= piece@);
            } else {
                lemma_encode_space();
                lemma_encode_concat(join_args(done), seq![' ']);
                lemma_encode_concat(join_args(done) + seq![' '], all[i as int]);
                assert(out@ =~= before + seq![0x20u8] + piece@);
            }
        }
        i += 1;
    }
    proof {
        assert(all.take(i as int) =~= all);
    }
    out
}

/// Zero bytes that follow a header of `13 + cmdline_len` bytes.
fn padding_for(cmdline_len: usize) -> (padding: usize)
    ensures
        padding == padding_len((13 + cmdline_len) as nat),
        padding < PAGE_SIZE,
{
    let low: usize = (HEADER_FIXED + cmdline_len % PAGE_SIZE) % PAGE_SIZE;
    assert(low == (13 + cmdline_len) % 4096) by {
        vstd::arithmetic::div_mod::lemma_add_mod_noop_right(13, cmdline_len as int, 4096);
    }
    (PAGE_SIZE - low) % PAGE_SIZE
}

/// Appends the magic and the length field for a command line of `len` bytes.
fn push_magic_and_length(out: &mut Vec<u8>, len: usize)
    ensures
        final(out)@ == old(out)@ + magic() + length_field(len as nat),
{
    let ghost before = out@;
    out.push(0x48u8);
    out.push(0x4Cu8);
    out.push(0x43u8);
    out.push(0x4Du8);
    out.push(0x44u8);
    out.push(0x4Cu8);
    out.push(0x4Eu8);
    out.push(0x00u8);
    assert(out@ =~= before + magic());
    out.push((len % 256) as u8);
    out.push((len / 256 % 256) as u8);
    out.push((len / 65536 % 256) as u8);
    out.push((len / 16777216 % 256) as u8);
    assert(out@ =~= before + magic() + length_field(len as nat));
}

/// Appends `n` zero bytes.
fn push_zeros(out: &mut Vec<u8>, n: usize)
    ensures
        final(out)@ == old(out)@ + zeros(n as nat),
{
    let ghost before = out@;
    let mut k: usize = 0;
    assert(out@ =~= before + zeros(0));
    while k < n
        invariant
            k <= n,
            out@ == before + zeros(k as nat),
        decreases n - k,
    {
        out.push(0u8);
        assert(out@ =~= before + zeros((k + 1) as nat));
        k += 1;
    }
}

/// Puts the command line made of `app_args` in front of `initrd`.
///
/// Returns nothing when there is neither a command line nor an image, the
/// image unchanged when the command line is empty, and otherwise the header
/// followed by the image.
pub fn prepend_cmdline_to_initrd(
    initrd: Option<&[u8]>,
    app_args: &[String],
) -> (out: Option<Vec<u8>>)
    ensures
        blob_view(out) == encode(image_view(initrd), args_view(app_args)),
{
    let cmdline = join_bytes(app_args);
    let len: usize = cmdline.len();
    if len == 0 {
        return match initrd {
            Some(data) => Some(slice_to_vec(data)),
            None => None,
        };
    }
    let padding: usize = padding_for(len);
    let image_len: usize = match initrd {
        Some(data) => data.len(),
        None => 0,
    };
    let mut out: Vec<u8> = Vec::with_capacity(reserve_for(len, padding, image_len));
    push_magic_and_length(&mut out, len);
    out.extend_from_slice(cmdline.as_slice());
    out.push(0u8);
    assert(out@ =~= magic() + length_field(len as nat) + cmdline@ + seq![0u8]);
    push_zeros(&mut out, padding);
    assert(out@ =~= header(cmdline@));
    match initrd {
        Some(data) => {
            out.extend_from_slice(data);
            assert(out@ =~= header(cmdline@) + data@);
        },
        None => {
            assert(out@ =~= header(cmdline@) + Seq::<u8>::empty());
        },
    }
    Some(out)
}

/// Bytes to reserve for a blob: the exact size where it can be told without
/// overflow, and nothing ahead of time where it cannot.
fn reserve_for(cmdline_len: usize, padding: usize, image_len: usize) -> (n: usize)
    ensures
        HEADER_FIXED + cmdline_len + padding + image_len <= usize::MAX ==> n == HEADER_FIXED
            + cmdline_len + padding + image_len,
{
    match HEADER_FIXED.checked_add(cmdline_len) {
        Some(a) => match a.checked_add(padding) {
            Some(b) => match b.checked_add(image_len) {
                Some(c) => c,
                None => 0,
            },
            None => 0,
        },
        None => 0,
    }
}

/// The number that the four bytes of a length field stand for.
pub open spec fn field_value(field: Seq<u8>) -> nat {
    (field[0] + 256 * field[1] + 65536 * field[2] + 16777216 * field[3]) as nat
}

/// What a header holds: the command line, and where the image starts.
#[derive(Debug, PartialEq, Eq)]
pub struct Header {
    /// The arguments, joined by single spaces.
    pub cmdline: String,
    /// Offset of the first byte of the image in the blob.
    pub payload_offset: usize,
}

/// The command line and the image offset that `blob` opens with, if it opens
/// with a header.
///
/// A header is there when the blob starts with the magic, holds as many bytes
/// of valid UTF-8 as the length field says, a zero byte after them and zero
/// bytes up to the next page boundary.
pub open spec fn decode(blob: Seq<u8>) -> Option<(Seq<char>, nat)> {
    if blob.len() < 13 || blob.subrange(0, 8) != magic() {
        None
    } else {
        let n = field_value(blob.subrange(8, 12)) as int;
        let offset = 13 + n + padding_len((13 + n) as nat);
        if blob.len() < offset || blob.subrange(12 + n, offset) != zeros((offset - 12 - n) as nat)
            || !valid_utf8(blob.subrange(12, 12 + n)) {
            None
        } else {
            Some((decode_utf8(blob.subrange(12, 12 + n)), offset as nat))
        }
    }
}

/// Whether `blob` starts with the magic.
fn starts_with_magic(blob: &[u8]) -> (b: bool)
    requires
        blob@.len() >= 8,
    ensures
        b == (blob@.subrange(0, 8) == magic()),
{
    let b = blob[0] == 0x48u8 && blob[1] == 0x4Cu8 && blob[2] == 0x43u8 && blob[3] == 0x4Du8
        && blob[4] == 0x44u8 && blob[5] == 0x4Cu8 && blob[6] == 0x4Eu8 && blob[7] == 0x00u8;
    proof {
        let head = blob@.subrange(0, 8);
        if b {
            assert(head =~= magic());
        } else {
            assert(head[0] == blob@[0] && head[1] == blob@[1] && head[2] == blob@[2] && head[3]
                == blob@[3] && head[4] == blob@[4] && head[5] == blob@[5] && head[6] == blob@[6]
                && head[7] == blob@[7]);
            assert(magic()[0] == 0x48u8 && magic()[1] == 0x4Cu8 && magic()[2] == 0x43u8
                && magic()[3] == 0x4Du8 && magic()[4] == 0x44u8 && magic()[5] == 0x4Cu8
                && magic()[6] == 0x4Eu8 && magic()[7] == 0x00u8);
        }
    }
    b
}

/// Whether the bytes of `blob` from `from` up to `to` are all zero.
fn all_zero(blob: &[u8], from: usize, to: usize) -> (b: bool)
    requires
        from <= to <= blob@.len(),
    ensures
        b == (blob@.subrange(from as int, to as int) == zeros((to - from) as nat)),
{
    let mut k: usize = from;
    while k < to
        invariant
            from <= k <= to <= blob@.len(),
            forall|j: int| from <= j < k ==> blob@[j] == 0u8,
        decreases to - k,
    {
        if blob[k] != 0u8 {
            proof {
                let part = blob@.subrange(from as int, to as int);
                assert(part[k - from] == blob@[k as int]);
                assert(zeros((to - from) as nat)[k - from] == 0u8);
            }
            return false;
        }
        k += 1;
    }
    assert(blob@.subrange(from as int, to as int) =~= zeros((to - from) as nat));
    true
}

/// Reads the header that `blob` opens with.
pub fn decode_header(blob: &[u8]) -> (out: Option<Header>)
    ensures
        match (out, decode(blob@)) {
            (Some(h), Some((cmdline, offset))) => h.cmdline@ == cmdline && h.payload_offset
                == offset,
            (None, None) => true,
            _ => false,
        },
{
    if blob.len() < HEADER_FIXED || !starts_with_magic(blob) {
        return None;
    }
    let n: u64 = blob[8] as u64 + 256 * (blob[9] as u64) + 65536 * (blob[10] as u64) + 16777216 * (
    blob[11] as u64);
    let ghost field = blob@.subrange(8, 12);
    assert(field[0] == blob@[8] && field[1] == blob@[9] && field[2] == blob@[10] && field[3]
        == blob@[11]);
    assert(n == field_value(field));
    let total: u64 = blob.len() as u64;
    if total - 13 < n {
        assert(blob@.len() < 13 + n + padding_len((13 + n) as nat));
        return None;
    }
    let n: usize = n as usize;
    let padding: usize = padding_for(n);
    if blob.len() - 13 - n < padding {
        return None;
    }
    let offset: usize = 13 + n + padding;
    if !all_zero(blob, 12 + n, offset) {
        return None;
    }
    let text = slice_to_vec(slice_subrange(blob, 12, 12 + n));
    match string_from_utf8(text) {
        Ok(cmdline) => Some(Header { cmdline, payload_offset: offset }),
        Err(_) => None,
    }
}

/// The joined arguments are empty only for no arguments and for one empty
/// argument.
proof fn lemma_join_empty(args: Seq<Seq<char>>)
    ensures
        join_args(args).len() == 0 <==> (args.len() == 0 || args == seq![Seq::<char>::empty()]),
{
    if args.len() == 1 {
        if args[0].len() == 0 {
            assert(args[0] =~= Seq::<char>::empty());
            assert(args =~= seq![Seq::<char>::empty()]);
        } else {
            assert(seq![Seq::<char>::empty()][0].len() == 0);
        }
    } else if args.len() > 1 {
        assert(seq![Seq::<char>::empty()].len() == 1);
    }
}

/// A command line has no bytes exactly when it has no characters.
proof fn lemma_encode_empty(text: Seq<char>)
    ensures
        encode_utf8(text).len() == 0 <==> text.len() == 0,
{
    if text.len() > 0 {
        vstd::utf8::encode_utf8_first_scalar(text);
    }
}

/// Without an image, a blob is absent exactly for the empty argument list.
///
/// The one list left out is that of a single empty argument: its command line
/// is empty too, so nothing is handed to the guest for it either.
pub proof fn lemma_absent_iff_no_args(args: Seq<Seq<char>>)
    requires
        args != seq![Seq::<char>::empty()],
    ensures
        encode(None, args) is None <==> args.len() == 0,
{
    lemma_join_empty(args);
    lemma_encode_empty(join_args(args));
}

/// With no arguments the image is handed on byte for byte.
pub proof fn lemma_no_args_keeps_image(image: Option<Seq<u8>>)
    ensures
        encode(image, Seq::empty()) == image,
{
    lemma_encode_empty(join_args(Seq::empty()));
}

/// The length field holds any length below 2^32 exactly.
proof fn lemma_field_value(n: nat)
    requires
        n <= u32::MAX,
    ensures
        field_value(length_field(n)) == n,
{
    let f = length_field(n);
    assert(f[0] == (n % 256) as u8 && f[1] == (n / 256 % 256) as u8 && f[2] == (n / 65536 % 256) as u8
        && f[3] == (n / 16777216 % 256) as u8);
    assert(n / 16777216 < 256);
}

/// Reading back what was framed gives the command line and the image.
///
/// For every argument list with a command line that the length field can
/// hold, the blob opens with a header whose command line is the arguments
/// joined by single spaces, the image starts at a multiple of the page size,
/// and from there on the blob is the image. Left out are the single empty
/// argument, for which no header is written, and command lines of 4 GiB and
/// more, whose length the field cannot hold.
pub proof fn lemma_decode_recovers(image: Option<Seq<u8>>, args: Seq<Seq<char>>)
    requires
        args.len() > 0,
        args != seq![Seq::<char>::empty()],
        encode_utf8(join_args(args)).len() <= u32::MAX,
    ensures
        encode(image, args) matches Some(blob) && decode(blob) matches Some(
            (cmdline, offset),
        ) && cmdline == join_args(args) && offset % 4096 == 0 && offset <= blob.len()
            && blob.subrange(offset as int, blob.len() as int) == match image {
            Some(data) => data,
            None => Seq::empty(),
        },
{
    let text = join_args(args);
    let cmdline = encode_utf8(text);
    lemma_join_empty(args);
    lemma_encode_empty(text);
    let n = cmdline.len() as int;
    let data = match image {
        Some(data) => data,
        None => Seq::empty(),
    };
    let head = header(cmdline);
    let blob = head + data;
    let pad = padding_len((13 + n) as nat) as int;
    let offset = 13 + n + pad;
    assert(head.len() == offset);
    assert(blob.subrange(0, 8) =~= magic());
    assert(blob.subrange(8, 12) =~= length_field(n as nat));
    lemma_field_value(n as nat);
    assert(blob.subrange(12, 12 + n) =~= cmdline);
    assert(blob.subrange(12 + n, offset) =~= zeros((offset - 12 - n) as nat));
    vstd::utf8::encode_utf8_valid_utf8(text);
    vstd::utf8::encode_utf8_decode_utf8(text);
    assert(blob.subrange(offset, blob.len() as int) =~= data);
    assert(offset % 4096 == 0) by {
        lemma_padded_is_aligned((13 + n) as nat);
    }
}

/// The image starts at a page boundary.
///
/// Every header, whatever the length of its command line, fills whole pages,
/// and the blob for a command line that is not empty is that header followed
/// by the image.
pub proof fn lemma_image_is_page_aligned(image: Option<Seq<u8>>, args: Seq<Seq<char>>)
    requires
        join_args(args).len() > 0,
    ensures
        header(encode_utf8(join_args(args))).len() % 4096 == 0,
        encode(image, args) == Some(
            header(encode_utf8(join_args(args))) + match image {
                Some(data) => data,
                None => Seq::empty(),
            },
        ),
{
    let cmdline = encode_utf8(join_args(args));
    lemma_encode_empty(join_args(args));
    lemma_padded_is_aligned(13 + cmdline.len());
}

/// A header with its padding ends on a page boundary.
proof fn lemma_padded_is_aligned(header_len: nat)
    ensures
        (header_len + padding_len(header_len)) % 4096 == 0,
{
    let r = header_len % 4096;
    let q = header_len / 4096;
    assert(header_len == 4096 * q + r) by {
        vstd::arithmetic::div_mod::lemma_fundamental_div_mod(header_len as int, 4096);
    }
    if r == 0 {
        assert(padding_len(header_len) == 0);
    } else {
        assert(padding_len(header_len) == 4096 - r);
        assert(header_len + padding_len(header_len) == 4096 * (q + 1));
    }
}

} // verus!
