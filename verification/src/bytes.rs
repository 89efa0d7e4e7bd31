//! Bytes as text and text as bytes: hexadecimal and printable renderings
//! of memory, little-endian numbers, and the readers of byte patterns that
//! the memory tools accept.

use vstd::prelude::*;
use vstd::string::StringSliceAdditionalSpecFns;
use vstd::utf8::{decode_utf8, encode_utf8, valid_utf8};
use crate::error::IncodeError;
use crate::text::{
    all_digits, digit_value, digits_value, hex_char, hex_str, lemma_hex_char_value, repeat_char,
    unsigned_digits,
    chars_of, has_prefix, hex_pad, pad_right, parse_bounded, parse_unsigned_str, push_char, push_hex_pad,
    push_pad_right, push_str, replace_all, replace_text, split_char, split_on, str_starts_with,
    trim, trim_str, views,
};

verus! {

broadcast use vstd::string::group_string_axioms;

// ---------------------------------------------------------------------------
// Rendering bytes
// ---------------------------------------------------------------------------

/// A byte as two lowercase hexadecimal digits (`{:02x}`).
pub open spec fn byte_hex(b: u8) -> Seq<char> {
    hex_pad(b as nat, 2)
}

/// The bytes, each as two hexadecimal digits, with `sep` between them.
pub open spec fn hex_joined(bytes: Seq<u8>, sep: Seq<char>) -> Seq<char>
    decreases bytes.len(),
{
    if bytes.len() == 0 {
        Seq::empty()
    } else if bytes.len() == 1 {
        byte_hex(bytes[0])
    } else {
        hex_joined(bytes.drop_last(), sep) + sep + byte_hex(bytes.last())
    }
}

/// How a byte shows in a dump: itself where it is a printable ASCII
/// character or a space, a dot otherwise.
pub open spec fn shown_char(b: u8) -> char {
    if 0x20 <= b <= 0x7e {
        b as char
    } else {
        '.'
    }
}

/// The bytes as they show in a dump.
pub open spec fn ascii_text(bytes: Seq<u8>) -> Seq<char> {
    bytes.map_values(|b: u8| shown_char(b))
}

/// The bytes as a list of two-digit hexadecimal numbers (`{:02x?}`).
pub open spec fn hex_list(bytes: Seq<u8>) -> Seq<char> {
    "["@ + hex_joined(bytes, ", "@) + "]"@
}

/// Appends the bytes `v[from..to]` in hexadecimal, `sep` between them.
pub fn push_hex_joined(s: &mut String, v: &Vec<u8>, from: usize, to: usize, sep: &str)
    requires
        from <= to <= v@.len(),
    ensures
        final(s)@ == old(s)@ + hex_joined(v@.subrange(from as int, to as int), sep@),
{
    let ghost start = s@;
    let mut j = from;
    assert(v@.subrange(from as int, from as int) =~= Seq::<u8>::empty());
    while j < to
        invariant
            from <= j <= to <= v@.len(),
            s@ == start + hex_joined(v@.subrange(from as int, j as int), sep@),
        decreases to - j,
    {
        let ghost sub = v@.subrange(from as int, j + 1);
        assert(sub.drop_last() =~= v@.subrange(from as int, j as int));
        assert(sub.last() == v@[j as int]);
        if j > from {
            push_str(s, sep);
        }
        push_hex_pad(s, v[j] as u64, 2);
        assert(s@ =~= start + hex_joined(sub, sep@));
        j = j + 1;
    }
}

/// The character a byte shows as.
pub fn shown(b: u8) -> (c: char)
    ensures
        c == shown_char(b),
{
    if 0x20 <= b && b <= 0x7e {
        b as char
    } else {
        '.'
    }
}

/// Appends the bytes `v[from..to]` as they show in a dump.
pub fn push_ascii(s: &mut String, v: &Vec<u8>, from: usize, to: usize)
    requires
        from <= to <= v@.len(),
    ensures
        final(s)@ == old(s)@ + ascii_text(v@.subrange(from as int, to as int)),
{
    let ghost start = s@;
    let mut j = from;
    while j < to
        invariant
            from <= j <= to <= v@.len(),
            s@ =~= start + ascii_text(v@.subrange(from as int, j as int)),
        decreases to - j,
    {
        push_char(s, shown(v[j]));
        assert(ascii_text(v@.subrange(from as int, j + 1)) =~= ascii_text(
            v@.subrange(from as int, j as int),
        ).push(shown_char(v@[j as int])));
        j = j + 1;
    }
}

/// The bytes as a list of two-digit hexadecimal numbers.
pub fn hex_list_text(v: &Vec<u8>) -> (r: String)
    ensures
        r@ == hex_list(v@),
{
    let mut s = String::new();
    push_str(&mut s, "[");
    push_hex_joined(&mut s, v, 0, v.len(), ", ");
    push_str(&mut s, "]");
    assert(v@.subrange(0, v@.len() as int) =~= v@);
    s
}

// ---------------------------------------------------------------------------
// Chunks and lines
// ---------------------------------------------------------------------------

/// The number of chunks of `k` bytes (the last may be shorter) in `n`
/// bytes.
pub open spec fn chunk_count(n: nat, k: nat) -> nat {
    if k == 0 {
        0
    } else {
        n / k + if n % k == 0 {
            0nat
        } else {
            1nat
        }
    }
}

/// Chunk `i` of `k` bytes of `data`.
pub open spec fn chunk(data: Seq<u8>, k: nat, i: int) -> Seq<u8> {
    let start = i * k;
    let end = if start + k < data.len() {
        start + k
    } else {
        data.len() as int
    };
    data.subrange(start, end)
}

/// The address of chunk `i`, counted from `base`, wrapping around at 2^64.
pub open spec fn chunk_address(base: u64, k: nat, i: int) -> u64 {
    ((base + i * k) % 0x1_0000_0000_0000_0000) as u64
}

/// A line of a memory listing: the address and the chunk's bytes.
pub open spec fn hex_line(data: Seq<u8>, base: u64, k: nat, i: int) -> Seq<char> {
    "0x"@ + hex_pad(chunk_address(base, k, i) as nat, 8) + ": "@ + hex_joined(
        chunk(data, k, i),
        " "@,
    )
}

/// The bytes and characters of a chunk as a dump shows them: the bytes
/// padded to 48 columns, then the characters between bars.
pub open spec fn hex_ascii_part(c: Seq<u8>) -> Seq<char> {
    pad_right(hex_joined(c, " "@), 48) + " |"@ + ascii_text(c) + "|"@
}

/// A line of a memory listing that also shows the chunk's characters.
pub open spec fn hex_ascii_line(data: Seq<u8>, base: u64, k: nat, i: int) -> Seq<char> {
    "0x"@ + hex_pad(chunk_address(base, k, i) as nat, 8) + ": "@ + hex_ascii_part(
        chunk(data, k, i),
    )
}

/// A line of a hexdump file: like a listing line without the `0x`, and
/// ended by a newline.
pub open spec fn hexdump_line(data: Seq<u8>, base: u64, i: int) -> Seq<char> {
    hex_pad(chunk_address(base, 16, i) as nat, 8) + ": "@ + hex_ascii_part(chunk(data, 16, i))
        + "\n"@
}

/// The lines, joined.
pub open spec fn joined_lines(lines: Seq<Seq<char>>) -> Seq<char>
    decreases lines.len(),
{
    if lines.len() == 0 {
        Seq::empty()
    } else {
        joined_lines(lines.drop_last()) + lines.last()
    }
}

/// A hexdump of `data` read from `base`: sixteen bytes to a line.
pub open spec fn hexdump(data: Seq<u8>, base: u64) -> Seq<char> {
    joined_lines(Seq::new(chunk_count(data.len(), 16), |i: int| hexdump_line(data, base, i)))
}

proof fn lemma_chunk_start(n: nat, k: nat, i: int)
    requires
        k > 0,
        0 <= i < chunk_count(n, k),
    ensures
        i * k < n,
{
    vstd::arithmetic::div_mod::lemma_fundamental_div_mod(n as int, k as int);
    let q = n / k;
    let r = n % k;
    assert(i * k < n) by (nonlinear_arith)
        requires
            k > 0,
            0 <= i,
            n == k * q + r,
            0 <= r < k,
            i < q + if r == 0 {
                0int
            } else {
                1int
            },
    ;
}

/// Where chunk `i` of `k` bytes begins and ends in `n` bytes.
fn chunk_bounds(n: usize, k: usize, i: usize) -> (r: (usize, usize))
    requires
        k > 0,
        i < chunk_count(n as nat, k as nat),
    ensures
        r.0 == i * k,
        r.0 < r.1 <= n,
        r.1 == if i * k + k < n {
            i * k + k
        } else {
            n as int
        },
{
    proof {
        lemma_chunk_start(n as nat, k as nat, i as int);
    }
    let start = i * k;
    let end = if k < n - start {
        start + k
    } else {
        n
    };
    (start, end)
}

/// The listing line of chunk `i` of `k` bytes of `data`.
pub fn hex_line_text(data: &Vec<u8>, base: u64, k: usize, i: usize) -> (r: String)
    requires
        k > 0,
        i < chunk_count(data@.len(), k as nat),
    ensures
        r@ == hex_line(data@, base, k as nat, i as int),
{
    let (start, end) = chunk_bounds(data.len(), k, i);
    let mut line = String::new();
    push_str(&mut line, "0x");
    push_hex_pad(&mut line, base.wrapping_add(start as u64), 8);
    push_str(&mut line, ": ");
    push_hex_joined(&mut line, data, start, end, " ");
    line
}

fn push_hex_ascii(s: &mut String, data: &Vec<u8>, start: usize, end: usize)
    requires
        start <= end <= data@.len(),
    ensures
        final(s)@ == old(s)@ + hex_ascii_part(data@.subrange(start as int, end as int)),
{
    let mut hex = String::new();
    push_hex_joined(&mut hex, data, start, end, " ");
    push_pad_right(s, hex.as_str(), 48);
    push_str(s, " |");
    push_ascii(s, data, start, end);
    push_str(s, "|");
}

/// The listing line, with characters, of chunk `i` of `k` bytes.
pub fn hex_ascii_line_text(data: &Vec<u8>, base: u64, k: usize, i: usize) -> (r: String)
    requires
        k > 0,
        i < chunk_count(data@.len(), k as nat),
    ensures
        r@ == hex_ascii_line(data@, base, k as nat, i as int),
{
    let (start, end) = chunk_bounds(data.len(), k, i);
    let mut line = String::new();
    push_str(&mut line, "0x");
    push_hex_pad(&mut line, base.wrapping_add(start as u64), 8);
    push_str(&mut line, ": ");
    push_hex_ascii(&mut line, data, start, end);
    line
}

/// The hexdump line of chunk `i` of sixteen bytes.
#[verifier::rlimit(40)]
pub fn hexdump_line_text(data: &Vec<u8>, base: u64, i: usize) -> (r: String)
    requires
        i < chunk_count(data@.len(), 16),
    ensures
        r@ == hexdump_line(data@, base, i as int),
{
    let (start, end) = chunk_bounds(data.len(), 16, i);
    let mut line = String::new();
    push_hex_pad(&mut line, base.wrapping_add(start as u64), 8);
    push_str(&mut line, ": ");
    push_hex_ascii(&mut line, data, start, end);
    push_str(&mut line, "\n");
    line
}

/// The number of chunks of `k` bytes in `n` bytes.
fn count_chunks(n: usize, k: usize) -> (r: usize)
    requires
        k > 0,
    ensures
        r == chunk_count(n as nat, k as nat),
{
    let q = n / k;
    if n % k == 0 {
        q
    } else {
        assert(k >= 2 && n >= 1) by (nonlinear_arith)
            requires
                k > 0,
                n % k != 0,
        ;
        assert(q < n) by (nonlinear_arith)
            requires
                k >= 2,
                n >= 1,
                q == n / k,
        ;
        q + 1
    }
}

/// The listing lines of `data` read from `base`, `k` bytes to a line, with
/// or without the characters.
pub fn listing_lines(data: &Vec<u8>, base: u64, k: usize, with_ascii: bool) -> (r: Vec<String>)
    requires
        k > 0,
    ensures
        views(r@) == Seq::new(
            chunk_count(data@.len(), k as nat),
            |i: int|
                if with_ascii {
                    hex_ascii_line(data@, base, k as nat, i)
                } else {
                    hex_line(data@, base, k as nat, i)
                },
        ),
{
    let count = count_chunks(data.len(), k);
    let ghost expected = Seq::new(
        count as nat,
        |i: int|
            if with_ascii {
                hex_ascii_line(data@, base, k as nat, i)
            } else {
                hex_line(data@, base, k as nat, i)
            },
    );
    let mut out: Vec<String> = Vec::new();
    let mut i: usize = 0;
    while i < count
        invariant
            k > 0,
            count == chunk_count(data@.len(), k as nat),
            expected.len() == count,
            expected == Seq::new(
                count as nat,
                |i: int|
                    if with_ascii {
                        hex_ascii_line(data@, base, k as nat, i)
                    } else {
                        hex_line(data@, base, k as nat, i)
                    },
            ),
            i <= count,
            views(out@) =~= expected.take(i as int),
        decreases count - i,
    {
        let line = if with_ascii {
            hex_ascii_line_text(data, base, k, i)
        } else {
            hex_line_text(data, base, k, i)
        };
        let ghost before = out@;
        out.push(line);
        assert(views(out@) =~= views(before).push(expected[i as int]));
        assert(expected.take(i + 1) =~= expected.take(i as int).push(expected[i as int]));
        i = i + 1;
    }
    assert(expected.take(count as int) =~= expected);
    out
}

/// A hexdump of `data` read from `base`.
pub fn hexdump_text(data: &Vec<u8>, base: u64) -> (r: String)
    ensures
        r@ == hexdump(data@, base),
{
    let count = count_chunks(data.len(), 16);
    let ghost lines = Seq::new(count as nat, |i: int| hexdump_line(data@, base, i));
    let mut out = String::new();
    let mut i: usize = 0;
    while i < count
        invariant
            count == chunk_count(data@.len(), 16),
            lines == Seq::new(count as nat, |i: int| hexdump_line(data@, base, i)),
            i <= count,
            out@ == joined_lines(lines.take(i as int)),
        decreases count - i,
    {
        let line = hexdump_line_text(data, base, i);
        assert(lines.take(i + 1).drop_last() =~= lines.take(i as int));
        assert(lines.take(i + 1).last() == lines[i as int]);
        push_str(&mut out, line.as_str());
        i = i + 1;
    }
    assert(lines.take(count as int) =~= lines);
    out
}

// ---------------------------------------------------------------------------
// Little-endian numbers
// ---------------------------------------------------------------------------

/// The number the bytes denote, least significant byte first.
pub open spec fn le_value(bytes: Seq<u8>) -> nat
    decreases bytes.len(),
{
    if bytes.len() == 0 {
        0
    } else {
        (bytes[0] + 256 * le_value(bytes.drop_first())) as nat
    }
}

/// 256 to the power `k`.
pub open spec fn pow256(k: nat) -> nat
    decreases k,
{
    if k == 0 {
        1
    } else {
        256 * pow256((k - 1) as nat)
    }
}

/// The little-endian numbers of `width` bytes each that `data` holds,
/// leaving out bytes that do not fill a number (`chunks_exact`).
pub open spec fn le_words(data: Seq<u8>, width: nat) -> Seq<nat> {
    Seq::new(
        data.len() / width,
        |i: int| le_value(data.subrange(i * width, i * width + width)),
    )
}

fn le_number(data: &Vec<u8>, start: usize, n: usize) -> (r: u64)
    requires
        n <= 8,
        start + n <= data@.len(),
    ensures
        r as nat == le_value(data@.subrange(start as int, start + n)),
{
    let len = data.len();
    let end = start + n;
    let mut v: u64 = 0;
    let mut j = end;
    assert(data@.subrange(end as int, end as int) =~= Seq::<u8>::empty());
    while j > start
        invariant
            start <= j <= end == start + n,
            n <= 8,
            end <= data@.len(),
            v as nat == le_value(data@.subrange(j as int, end as int)),
            v < pow256((end - j) as nat),
        decreases j,
    {
        let ghost sub = data@.subrange(j - 1, end as int);
        assert(sub.drop_first() =~= data@.subrange(j as int, end as int));
        assert(sub[0] == data@[j - 1]);
        assert(pow256((end - j + 1) as nat) == 256 * pow256((end - j) as nat));
        assert(pow256((end - j + 1) as nat) <= 0x1_0000_0000_0000_0000) by {
            reveal_with_fuel(pow256, 9);
            if end - j + 1 < 8 {
                lemma_pow256_mono((end - j + 1) as nat, 8);
            }
        }
        let b = data[j - 1] as u64;
        assert(v * 256 + b < pow256((end - j + 1) as nat)) by (nonlinear_arith)
            requires
                v < pow256((end - j) as nat),
                b < 256,
                pow256((end - j + 1) as nat) == 256 * pow256((end - j) as nat),
        ;
        v = v * 256 + b;
        j = j - 1;
    }
    v
}

proof fn lemma_pow256_mono(a: nat, b: nat)
    requires
        a <= b,
    ensures
        pow256(a) <= pow256(b),
    decreases b - a,
{
    if a < b {
        lemma_pow256_mono(a, (b - 1) as nat);
        assert(pow256(b) == 256 * pow256((b - 1) as nat));
    }
}

/// The little-endian numbers of `width` bytes each in `data`.
pub fn le_words_of(data: &Vec<u8>, width: usize) -> (r: Vec<u64>)
    requires
        1 <= width <= 8,
    ensures
        r@.len() == le_words(data@, width as nat).len(),
        forall|i: int| 0 <= i < r@.len() ==> r@[i] as nat == #[trigger] le_words(data@, width as nat)[i],
{
    let len = data.len();
    let count = len / width;
    let mut out: Vec<u64> = Vec::new();
    let mut i: usize = 0;
    while i < count
        invariant
            1 <= width <= 8,
            len == data@.len(),
            count == data@.len() / width as nat,
            i <= count,
            out@.len() == i,
            forall|k: int|
                0 <= k < i ==> out@[k] as nat == #[trigger] le_words(data@, width as nat)[k],
        decreases count - i,
    {
        assert(i * width + width <= data@.len()) by (nonlinear_arith)
            requires
                i < count,
                count == data@.len() / width as nat,
                width >= 1,
        ;
        let start = i * width;
        let v = le_number(data, start, width);
        out.push(v);
        i = i + 1;
    }
    out
}

// ---------------------------------------------------------------------------
// Reading bytes from text
// ---------------------------------------------------------------------------

/// `std::str::from_utf8` on a byte slice, as an owned string: the text the
/// bytes encode where they are valid UTF-8, nothing otherwise.
#[verifier::external_body]
fn utf8_text(bytes: &[u8]) -> (r: Option<String>)
    ensures
        match r {
            Some(s) => valid_utf8(bytes@) && s@ == decode_utf8(bytes@),
            None => !valid_utf8(bytes@),
        },
{
    match std::str::from_utf8(bytes) {
        Ok(s) => Some(s.to_owned()),
        Err(_) => None,
    }
}

/// The text of a hexadecimal byte string with `0x` prefixes and spaces
/// removed.
pub open spec fn hex_cleaned(s: Seq<char>) -> Seq<char> {
    replace_all(replace_all(s, "0x"@, Seq::empty()), " "@, Seq::empty())
}

/// The bytes that pairs of UTF-8 bytes denote as two-digit hexadecimal
/// numbers, or the error for the first pair that is not valid UTF-8 or not
/// a hexadecimal number.
pub open spec fn hex_pairs(bytes: Seq<u8>) -> Result<Seq<u8>, Seq<char>>
    decreases bytes.len(),
{
    if bytes.len() < 2 {
        Ok(Seq::empty())
    } else {
        let pair = bytes.take(2);
        if !valid_utf8(pair) {
            Err("Invalid hex characters"@)
        } else {
            match parse_bounded(decode_utf8(pair), 16, 255) {
                None => Err("Invalid hex byte: "@ + decode_utf8(pair)),
                Some(v) => match hex_pairs(bytes.skip(2)) {
                    Ok(rest) => Ok(seq![v as u8] + rest),
                    Err(m) => Err(m),
                },
            }
        }
    }
}

/// The bytes a hexadecimal byte string denotes: its UTF-8 bytes, once
/// `0x` and spaces are removed, read two at a time. An odd number of bytes
/// is refused with the message `odd`.
pub open spec fn hex_bytes(s: Seq<char>, odd: Seq<char>) -> Result<Seq<u8>, Seq<char>> {
    let b = encode_utf8(hex_cleaned(s));
    if b.len() % 2 != 0 {
        Err(odd)
    } else {
        hex_pairs(b)
    }
}

/// `r` is the bytes `spec`, or the protocol error with its message.
pub open spec fn is_bytes_result(r: Result<Vec<u8>, IncodeError>, spec: Result<Seq<u8>, Seq<char>>) -> bool {
    match spec {
        Ok(b) => r matches Ok(v) && v@ == b,
        Err(m) => r matches Err(IncodeError::McpProtocol(t)) && t@ == m,
    }
}

/// Reads a hexadecimal byte string such as `de ad 0xbe ef`.
pub fn parse_hex_bytes(s: &str, odd: &str) -> (r: Result<Vec<u8>, IncodeError>)
    ensures
        is_bytes_result(r, hex_bytes(s@, odd@)),
{
    proof {
        reveal_strlit("0x");
        reveal_strlit(" ");
        reveal_strlit("");
        assert(""@ =~= Seq::<char>::empty());
    }
    let without_prefix = replace_text(s, "0x", "");
    let cleaned = replace_text(without_prefix.as_str(), " ", "");
    let cs = cleaned.as_str();
    assert(cs@ == hex_cleaned(s@));
    let b = cs.as_bytes();
    let ghost bv = b@;
    assert(bv == cs.spec_bytes());
    assert(bv == encode_utf8(hex_cleaned(s@)));
    if b.len() % 2 != 0 {
        return Err(IncodeError::mcp(odd));
    }
    let mut out: Vec<u8> = Vec::new();
    let mut i: usize = 0;
    assert(bv.skip(0) =~= bv);
    while i < b.len()
        invariant
            bv == b@,
            bv == encode_utf8(hex_cleaned(s@)),
            bv.len() % 2 == 0,
            i <= bv.len(),
            i % 2 == 0,
            hex_pairs(bv) == match hex_pairs(bv.skip(i as int)) {
                Ok(rest) => Ok(out@ + rest),
                Err(m) => Err(m),
            },
        decreases bv.len() - i,
    {
        let ghost rest = bv.skip(i as int);
        assert(rest.take(2) =~= bv.subrange(i as int, i + 2));
        assert(rest.skip(2) =~= bv.skip(i + 2));
        let mut pair: Vec<u8> = Vec::new();
        pair.push(b[i]);
        pair.push(b[i + 1]);
        assert(pair@ =~= rest.take(2));
        match utf8_text(pair.as_slice()) {
            None => {
                return Err(IncodeError::mcp("Invalid hex characters"));
            },
            Some(text) => match parse_unsigned_str(text.as_str(), 16, 255) {
                None => {
                    let mut msg = String::new();
                    push_str(&mut msg, "Invalid hex byte: ");
                    push_str(&mut msg, text.as_str());
                    return Err(IncodeError::McpProtocol(msg));
                },
                Some(v) => {
                    let ghost before = out@;
                    out.push(v as u8);
                    assert(before + (seq![v as u8] + hex_pairs(bv.skip(i + 2))->Ok_0) =~= out@
                        + hex_pairs(bv.skip(i + 2))->Ok_0);
                },
            },
        }
        i = i + 2;
    }
    assert(bv.skip(i as int) =~= Seq::<u8>::empty());
    assert(out@ + Seq::<u8>::empty() =~= out@);
    Ok(out)
}

/// The byte a text denotes: `0x` and up to two hexadecimal digits, or a
/// decimal number, at most 255.
pub open spec fn byte_value(t: Seq<char>) -> Option<u8> {
    let v = if has_prefix(t, "0x"@) {
        parse_bounded(t.subrange(2, t.len() as int), 16, 255)
    } else {
        parse_bounded(t, 10, 255)
    };
    match v {
        Some(x) => Some(x as u8),
        None => None,
    }
}

/// The bytes the comma-separated parts denote, each trimmed, or the error
/// for the first part that is not a byte.
pub open spec fn byte_list(parts: Seq<Seq<char>>) -> Result<Seq<u8>, Seq<char>>
    decreases parts.len(),
{
    if parts.len() == 0 {
        Ok(Seq::empty())
    } else {
        let t = trim(parts[0]);
        match byte_value(t) {
            None => Err("Invalid byte value: "@ + t),
            Some(b) => match byte_list(parts.drop_first()) {
                Ok(rest) => Ok(seq![b] + rest),
                Err(m) => Err(m),
            },
        }
    }
}

fn byte_of(t: &str) -> (r: Option<u8>)
    ensures
        r == byte_value(t@),
{
    let v = chars_of(t);
    if str_starts_with(t, "0x") {
        proof {
            reveal_strlit("0x");
        }
        let digits = crate::text::sub_chars(&v, 2, v.len());
        match crate::text::parse_unsigned_chars(&digits, 16, 255) {
            Some(x) => Some(x as u8),
            None => None,
        }
    } else {
        match crate::text::parse_unsigned_chars(&v, 10, 255) {
            Some(x) => Some(x as u8),
            None => None,
        }
    }
}

/// Reads a comma-separated list of bytes such as `0xde, 173, 0xbe`.
pub fn parse_byte_list(s: &str) -> (r: Result<Vec<u8>, IncodeError>)
    ensures
        is_bytes_result(r, byte_list(split_char(s@, ','))),
{
    let parts = split_on(s, ',');
    let ghost pv = views(parts@);
    let mut out: Vec<u8> = Vec::new();
    let mut i: usize = 0;
    assert(pv.skip(0) =~= pv);
    while i < parts.len()
        invariant
            pv == views(parts@),
            pv == split_char(s@, ','),
            i <= pv.len(),
            byte_list(pv) == match byte_list(pv.skip(i as int)) {
                Ok(rest) => Ok(out@ + rest),
                Err(m) => Err(m),
            },
        decreases pv.len() - i,
    {
        let ghost rest = pv.skip(i as int);
        assert(rest[0] == parts@[i as int]@);
        assert(rest.drop_first() =~= pv.skip(i + 1));
        let t = trim_str(parts[i].as_str());
        match byte_of(t.as_str()) {
            None => {
                let mut msg = String::new();
                push_str(&mut msg, "Invalid byte value: ");
                push_str(&mut msg, t.as_str());
                return Err(IncodeError::McpProtocol(msg));
            },
            Some(b) => {
                let ghost before = out@;
                out.push(b);
                assert(before + (seq![b] + byte_list(pv.skip(i + 1))->Ok_0) =~= out@ + byte_list(
                    pv.skip(i + 1),
                )->Ok_0);
            },
        }
        i = i + 1;
    }
    assert(pv.skip(i as int) =~= Seq::<Seq<char>>::empty());
    assert(out@ + Seq::<u8>::empty() =~= out@);
    Ok(out)
}

// ---------------------------------------------------------------------------
// Hexadecimal text read back
// ---------------------------------------------------------------------------

/// Every character of `s` is a lowercase hexadecimal digit.
pub open spec fn is_hex_text(s: Seq<char>) -> bool {
    forall|i: int| 0 <= i < s.len() ==> ('0' <= #[trigger] s[i] <= '9' || 'a' <= s[i] <= 'f')
}

/// A byte's two digits: its high and its low half.
proof fn lemma_byte_hex_digits(b: u8)
    ensures
        byte_hex(b) == seq![hex_char((b / 16) as nat), hex_char((b % 16) as nat)],
{
    reveal_with_fuel(hex_str, 2);
    if b < 16 {
        assert(hex_str(b as nat) == seq![hex_char(b as nat)]);
        assert(repeat_char('0', 1) =~= seq!['0']);
        assert(byte_hex(b) =~= seq!['0', hex_char(b as nat)]);
    } else {
        assert(hex_str(b as nat) =~= seq![hex_char((b / 16) as nat), hex_char((b % 16) as nat)]);
    }
}

/// The two digits of a byte are lowercase hexadecimal digits.
proof fn lemma_byte_hex_text(b: u8)
    ensures
        is_hex_text(byte_hex(b)),
        byte_hex(b).len() == 2,
{
    lemma_byte_hex_digits(b);
}

/// The digits of a run of bytes, read from the front: the first byte's
/// digits, then those of the rest.
proof fn lemma_hex_joined_front(bytes: Seq<u8>)
    requires
        bytes.len() > 0,
    ensures
        hex_joined(bytes, Seq::empty()) == byte_hex(bytes[0]) + hex_joined(bytes.drop_first(), Seq::empty()),
    decreases bytes.len(),
{
    let e = Seq::<char>::empty();
    if bytes.len() == 1 {
        assert(bytes.drop_first().len() == 0);
        assert(byte_hex(bytes[0]) + e =~= byte_hex(bytes[0]));
    } else {
        let front = bytes.drop_last();
        lemma_hex_joined_front(front);
        assert(front.drop_first() =~= bytes.drop_first().drop_last());
        assert(bytes.drop_first().last() == bytes.last());
        if bytes.len() == 2 {
            assert(front.drop_first().len() == 0);
            assert(hex_joined(bytes.drop_first(), e) == byte_hex(bytes[1]));
            assert(hex_joined(bytes, e) =~= byte_hex(bytes[0]) + e + byte_hex(bytes[1]));
            assert(byte_hex(bytes[0]) + e + byte_hex(bytes[1]) =~= byte_hex(bytes[0]) + byte_hex(bytes[1]));
        } else {
            assert(hex_joined(bytes.drop_first(), e) == hex_joined(bytes.drop_first().drop_last(), e) + e
                + byte_hex(bytes.drop_first().last()));
            assert(hex_joined(bytes, e) =~= byte_hex(bytes[0]) + hex_joined(bytes.drop_first(), e));
        }
    }
}

/// The digits of a run of bytes are lowercase hexadecimal digits, two for
/// each byte.
proof fn lemma_hex_joined_text(bytes: Seq<u8>)
    ensures
        is_hex_text(hex_joined(bytes, Seq::empty())),
        hex_joined(bytes, Seq::empty()).len() == 2 * bytes.len(),
    decreases bytes.len(),
{
    if bytes.len() > 0 {
        lemma_hex_joined_front(bytes);
        lemma_hex_joined_text(bytes.drop_first());
        lemma_byte_hex_text(bytes[0]);
        let a = byte_hex(bytes[0]);
        let r = hex_joined(bytes.drop_first(), Seq::empty());
        assert forall|i: int| 0 <= i < (a + r).len() implies ('0' <= #[trigger] (a + r)[i] <= '9' || 'a'
            <= (a + r)[i] <= 'f') by {
            if i < 2 {
                assert((a + r)[i] == a[i]);
            } else {
                assert((a + r)[i] == r[i - 2]);
            }
        }
    }
}

/// Removing a pattern from text that lacks the pattern's last character
/// leaves the text as it is.
proof fn lemma_replace_absent(s: Seq<char>, from: Seq<char>, to: Seq<char>)
    requires
        from.len() > 0,
        forall|i: int| 0 <= i < s.len() ==> s[i] != from.last(),
    ensures
        replace_all(s, from, to) == s,
    decreases s.len(),
{
    if s.len() > 0 {
        if has_prefix(s, from) {
            assert(s.subrange(0, from.len() as int)[from.len() - 1] == s[from.len() - 1]);
        }
        lemma_replace_absent(s.drop_first(), from, to);
        assert(seq![s[0]] + s.drop_first() =~= s);
    }
}

/// Lowercase hexadecimal digits are ASCII.
proof fn lemma_hex_text_ascii(s: Seq<char>)
    requires
        is_hex_text(s),
    ensures
        vstd::utf8::is_ascii_chars(s),
        encode_utf8(s).len() == s.len(),
        forall|i: int| 0 <= i < s.len() ==> encode_utf8(s)[i] == s[i] as u8,
{
    assert forall|i: int| 0 <= i < s.len() implies '\0' <= #[trigger] s[i] <= '\u{7f}' by {
        assert('0' <= s[i] <= '9' || 'a' <= s[i] <= 'f');
    }
    vstd::utf8::is_ascii_chars_encode_utf8(s);
}

/// Two hexadecimal digits of a byte read back as the byte.
proof fn lemma_two_digits_value(b: u8)
    ensures
        parse_bounded(seq![hex_char((b / 16) as nat), hex_char((b % 16) as nat)], 16, 255) == Some(
            b as nat,
        ),
{
    let hi = (b / 16) as nat;
    let lo = (b % 16) as nat;
    let d = seq![hex_char(hi), hex_char(lo)];
    lemma_hex_char_value(hi, 16);
    lemma_hex_char_value(lo, 16);
    assert(unsigned_digits(d) == d);
    assert(all_digits(d, 16)) by {
        assert forall|i: int| 0 <= i < d.len() implies (#[trigger] digit_value(d[i], 16)) is Some by {
            if i == 0 {
                assert(d[i] == hex_char(hi));
            } else {
                assert(d[i] == hex_char(lo));
            }
        }
    }
    let one = d.drop_last();
    assert(one =~= seq![hex_char(hi)]);
    assert(one.drop_last() =~= Seq::<char>::empty());
    assert(digits_value(one.drop_last(), 16) == 0);
    assert(one.last() == hex_char(hi));
    assert(digits_value(one, 16) == hi);
    assert(d.last() == hex_char(lo));
    assert(digits_value(d, 16) == hi * 16 + lo);
}

/// The UTF-8 bytes of the digits of a run of bytes read back, pair by
/// pair, as those bytes.
proof fn lemma_hex_pairs_read_back(bytes: Seq<u8>)
    ensures
        hex_pairs(encode_utf8(hex_joined(bytes, Seq::empty()))) == Ok::<Seq<u8>, Seq<char>>(bytes),
    decreases bytes.len(),
{
    let e = Seq::<char>::empty();
    let s = hex_joined(bytes, e);
    lemma_hex_joined_text(bytes);
    lemma_hex_text_ascii(s);
    let enc = encode_utf8(s);
    if bytes.len() == 0 {
        assert(enc.len() == 0);
        assert(bytes =~= Seq::<u8>::empty());
    } else {
        let b0 = bytes[0];
        let rest = bytes.drop_first();
        let r = hex_joined(rest, e);
        lemma_hex_joined_front(bytes);
        lemma_byte_hex_digits(b0);
        lemma_hex_joined_text(rest);
        lemma_hex_text_ascii(r);
        let pair_chars = seq![hex_char((b0 / 16) as nat), hex_char((b0 % 16) as nat)];
        lemma_byte_hex_text(b0);
        lemma_hex_text_ascii(pair_chars);
        assert(s == pair_chars + r);
        assert(s[0] == pair_chars[0] && s[1] == pair_chars[1]);
        assert(enc.take(2) =~= encode_utf8(pair_chars));
        assert forall|i: int| 0 <= i < enc.skip(2).len() implies #[trigger] enc.skip(2)[i] == encode_utf8(r)[i] by {
            assert(s[i + 2] == r[i]);
        }
        assert(enc.skip(2) =~= encode_utf8(r));
        vstd::utf8::encode_utf8_valid_utf8(pair_chars);
        vstd::utf8::encode_utf8_decode_utf8(pair_chars);
        let pair = enc.take(2);
        assert(valid_utf8(pair));
        assert(decode_utf8(pair) == pair_chars);
        lemma_two_digits_value(b0);
        lemma_hex_pairs_read_back(rest);
        assert(enc.len() >= 2);
        assert(hex_pairs(enc.skip(2)) == Ok::<Seq<u8>, Seq<char>>(rest));
        assert(parse_bounded(decode_utf8(pair), 16, 255) == Some(b0 as nat));
        assert(hex_pairs(enc) == Ok::<Seq<u8>, Seq<char>>(seq![(b0 as nat) as u8] + rest));
        assert((b0 as nat) as u8 == b0);
        assert(seq![(b0 as nat) as u8] + rest =~= bytes);
    }
}

/// The hexadecimal text of bytes, without separators, reads back as
/// those bytes.
pub(crate) proof fn lemma_hex_text_reads_back(bytes: Seq<u8>, odd: Seq<char>)
    ensures
        hex_bytes(hex_joined(bytes, Seq::empty()), odd) == Ok::<Seq<u8>, Seq<char>>(bytes),
{
    let s = hex_joined(bytes, Seq::empty());
    lemma_hex_joined_text(bytes);
    reveal_strlit("0x");
    reveal_strlit(" ");
    assert forall|i: int| 0 <= i < s.len() implies #[trigger] s[i] != 'x' && s[i] != ' ' by {
        assert('0' <= s[i] <= '9' || 'a' <= s[i] <= 'f');
    }
    lemma_replace_absent(s, "0x"@, Seq::empty());
    lemma_replace_absent(s, " "@, Seq::empty());
    assert(hex_cleaned(s) == s);
    lemma_hex_text_ascii(s);
    assert(encode_utf8(s).len() % 2 == 0);
    lemma_hex_pairs_read_back(bytes);
}

proof fn lemma_hex_joined_len(bytes: Seq<u8>)
    requires
        bytes.len() >= 1,
    ensures
        hex_joined(bytes, " "@).len() == 3 * bytes.len() - 1,
    decreases bytes.len(),
{
    reveal_strlit(" ");
    lemma_byte_hex_text(bytes.last());
    if bytes.len() > 1 {
        lemma_hex_joined_len(bytes.drop_last());
    } else {
        lemma_byte_hex_text(bytes[0]);
    }
}

/// Each line of a hexdump shows sixteen bytes, fewer only on the last
/// line: the line starts with the address of its first byte (the base
/// address plus sixteen per line, exactly so where that fits in 64 bits),
/// padded to eight digits, and `: `; the bytes in hexadecimal fill a column exactly
/// forty-eight characters wide; the same bytes follow as characters
/// between bars, and a newline ends the line.
pub proof fn law_hexdump_line_layout(data: Seq<u8>, base: u64, i: int)
    requires
        0 <= i < chunk_count(data.len(), 16),
    ensures
        ({
            let c = chunk(data, 16, i);
            let column = pad_right(hex_joined(c, " "@), 48);
            &&& c == data.subrange(16 * i, if 16 * i + 16 <= data.len() {
                16 * i + 16
            } else {
                data.len() as int
            })
            &&& 1 <= c.len() <= 16
            &&& (16 * i + 16 <= data.len() ==> c.len() == 16)
            &&& column.len() == 48
            &&& ascii_text(c).len() == c.len()
            &&& chunk_address(base, 16, i) as int == (base + 16 * i) % 0x1_0000_0000_0000_0000
            &&& (base + 16 * i <= u64::MAX ==> chunk_address(base, 16, i) as int == base + 16 * i)
            &&& hexdump_line(data, base, i) == hex_pad(chunk_address(base, 16, i) as nat, 8)
                + ": "@ + column + " |"@ + ascii_text(c) + "|"@ + "\n"@
        }),
{
    lemma_chunk_start(data.len(), 16, i);
    let c = chunk(data, 16, i);
    assert(i * 16 == 16 * i);
    assert(1 <= c.len() <= 16);
    lemma_hex_joined_len(c);
    reveal_strlit(" |");
    reveal_strlit("|");
    reveal_strlit("\n");
    assert(hexdump_line(data, base, i) =~= hex_pad(chunk_address(base, 16, i) as nat, 8) + ": "@
        + pad_right(hex_joined(c, " "@), 48) + " |"@ + ascii_text(c) + "|"@ + "\n"@);
}

/// Each line of a memory listing, with or without characters, shows the
/// address of its own first byte: line `i` of `k` bytes to a line starts
/// with `0x`, the base address plus `i * k` (wrapping at 2^64, exactly so
/// where that fits in 64 bits) in at least eight hexadecimal digits, and
/// `: `; then come the bytes `data[i * k ..]`, at most `k` of them.
pub proof fn law_listing_line_address(data: Seq<u8>, base: u64, k: nat, i: int)
    requires
        k > 0,
        0 <= i < chunk_count(data.len(), k),
    ensures
        ({
            let start = i * k;
            let end = if start + k <= data.len() {
                start + k
            } else {
                data.len() as int
            };
            let addr = ((base + start) % 0x1_0000_0000_0000_0000) as nat;
            let head = "0x"@ + hex_pad(addr, 8) + ": "@;
            &&& 0 <= start < end <= data.len()
            &&& end - start <= k
            &&& (base + start <= u64::MAX ==> addr == base + start)
            &&& hex_line(data, base, k, i) == head + hex_joined(data.subrange(start, end), " "@)
            &&& hex_ascii_line(data, base, k, i) == head + hex_ascii_part(
                data.subrange(start, end),
            )
        }),
{
    lemma_chunk_start(data.len(), k, i);
    let start = i * k;
    assert(0 <= start) by (nonlinear_arith)
        requires
            start == i * k,
            0 <= i,
            k > 0,
    ;
    assert(chunk_address(base, k, i) as nat == ((base + start) % 0x1_0000_0000_0000_0000) as nat);
    assert(chunk(data, k, i) == data.subrange(start, if start + k <= data.len() {
        start + k
    } else {
        data.len() as int
    }));
}

/// Little-endian numbers put the first byte lowest: `n` bytes denote a
/// number below 256^n, and a byte added at the end counts 256^n times its
/// value.
pub proof fn law_little_endian_value(bytes: Seq<u8>, b: u8)
    ensures
        le_value(bytes) < pow256(bytes.len()),
        le_value(bytes.push(b)) == le_value(bytes) + b * pow256(bytes.len()),
    decreases bytes.len(),
{
    if bytes.len() == 0 {
        assert(bytes.push(b).drop_first() =~= Seq::<u8>::empty());
        assert(le_value(bytes.push(b).drop_first()) == 0);
        assert(bytes.push(b)[0] == b);
        assert(le_value(bytes.push(b)) == b);
        assert(pow256(0) == 1);
    } else {
        let rest = bytes.drop_first();
        law_little_endian_value(rest, b);
        assert(bytes.push(b).drop_first() =~= rest.push(b));
        assert(bytes.push(b)[0] == bytes[0]);
        let p = pow256(rest.len());
        let v = le_value(rest);
        let h = bytes[0];
        assert(pow256(bytes.len()) == 256 * p);
        assert(h + 256 * (v + b * p) == (h + 256 * v) + b * (256 * p)) by (nonlinear_arith);
        assert(h + 256 * v < 256 * p) by (nonlinear_arith)
            requires
                v < p,
                h < 256,
        ;
    }
}

} // verus!
