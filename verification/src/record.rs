//! One line of an Intel HEX record stream: its grammar as spec functions,
//! and a verified parser classifying a line into a typed record.
//!
//! A well-formed line is a ':' start marker followed by an even run of ASCII
//! hex digits encoding, in order: a payload byte count, a 16-bit offset, a
//! record type, the payload, and a checksum that makes the sum of all encoded
//! bytes divisible by 256.

use vstd::prelude::*;

verus! {

use vstd::arithmetic::div_mod::lemma_add_mod_noop;

/// A byte that is an ASCII hexadecimal digit.
pub open spec fn is_hex_digit(c: u8) -> bool {
    (0x30 <= c <= 0x39) || (0x61 <= c <= 0x66) || (0x41 <= c <= 0x46)
}

/// Numeric value of an ASCII hexadecimal digit (0 on other bytes).
pub open spec fn hex_val(c: u8) -> nat {
    if 0x30 <= c <= 0x39 {
        (c - 0x30) as nat
    } else if 0x61 <= c <= 0x66 {
        (c - 0x61 + 10) as nat
    } else if 0x41 <= c <= 0x46 {
        (c - 0x41 + 10) as nat
    } else {
        0
    }
}

/// Value of the `k`-th byte encoded as a hex-digit pair after the start marker.
pub open spec fn encoded_byte(s: Seq<u8>, k: int) -> nat {
    hex_val(s[1 + 2 * k]) * 16 + hex_val(s[2 + 2 * k])
}

/// How many hex-digit pairs the line holds after the start marker.
pub open spec fn pair_count(s: Seq<u8>) -> int {
    (s.len() - 1) / 2
}

/// Sum of the first `k` encoded bytes of the line.
pub open spec fn byte_sum(s: Seq<u8>, k: int) -> nat
    decreases k,
{
    if k <= 0 {
        0
    } else {
        byte_sum(s, k - 1) + encoded_byte(s, k - 1)
    }
}

/// The line has the start marker and an even, long-enough run of hex digits.
pub open spec fn line_shape_ok(s: Seq<u8>) -> bool {
    &&& s.len() >= 11
    &&& (s.len() - 1) % 2 == 0
    &&& s[0] == 0x3au8
    &&& forall|i: int| 1 <= i < s.len() ==> is_hex_digit(s[i])
}

/// Declared payload byte count of the line.
pub open spec fn rec_count(s: Seq<u8>) -> nat {
    encoded_byte(s, 0)
}

/// Declared 16-bit offset of the line, big-endian.
pub open spec fn rec_offset(s: Seq<u8>) -> nat {
    encoded_byte(s, 1) * 256 + encoded_byte(s, 2)
}

/// Declared record type of the line.
pub open spec fn rec_type(s: Seq<u8>) -> nat {
    encoded_byte(s, 3)
}

/// Payload bytes of the line, in order.
pub open spec fn rec_payload(s: Seq<u8>) -> Seq<u8> {
    Seq::new(rec_count(s), |i: int| encoded_byte(s, 4 + i) as u8)
}

/// The line is a valid record: right shape, a length that matches the
/// declared count, and a byte sum divisible by 256 (the checksum is the
/// two's complement of the sum of the bytes before it).
pub open spec fn well_formed_line(s: Seq<u8>) -> bool {
    &&& line_shape_ok(s)
    &&& rec_count(s) == (s.len() - 11) / 2
    &&& byte_sum(s, pair_count(s)) % 256 == 0
}

/// Mathematical model of a decoded record.
pub enum RecordView {
    Data { offset: u16, payload: Seq<u8> },
    EndOfFile,
    Other,
    Malformed,
}

/// What one line of the stream decodes to.
///
/// Record type 0 is a data record; type 1 ends the stream and carries no
/// payload; the other declared types (extended and start addresses, types 2
/// to 5) carry fixed payload sizes and matter only as non-data records. Any
/// line outside those shapes is malformed and is skipped by consumers.
pub open spec fn parse_record_spec(s: Seq<u8>) -> RecordView {
    if !well_formed_line(s) {
        RecordView::Malformed
    } else if rec_type(s) == 0 {
        RecordView::Data { offset: rec_offset(s) as u16, payload: rec_payload(s) }
    } else if rec_type(s) == 1 {
        if rec_count(s) == 0 {
            RecordView::EndOfFile
        } else {
            RecordView::Malformed
        }
    } else if rec_type(s) == 2 || rec_type(s) == 4 {
        if rec_count(s) == 2 {
            RecordView::Other
        } else {
            RecordView::Malformed
        }
    } else if rec_type(s) == 3 || rec_type(s) == 5 {
        if rec_count(s) == 4 {
            RecordView::Other
        } else {
            RecordView::Malformed
        }
    } else {
        RecordView::Malformed
    }
}

/// A record decoded from one line of a hex-record stream.
#[derive(Debug, Clone, PartialEq, Eq)]
pub enum HexRecord {
    /// A chunk of firmware content. The offset is declared by the line but
    /// is not used to place the payload: assembly is by stream order.
    Data { offset: u16, payload: Vec<u8> },
    /// Terminates the logical record stream; carries no payload.
    EndOfFile,
    /// Any other declared record type; ignored for payload purposes.
    Other,
    /// A line that fails to parse as a valid record; skipped by consumers.
    Malformed,
}

impl View for HexRecord {
    type V = RecordView;

    open spec fn view(&self) -> RecordView {
        match self {
            HexRecord::Data { offset, payload } => RecordView::Data {
                offset: *offset,
                payload: payload@,
            },
            HexRecord::EndOfFile => RecordView::EndOfFile,
            HexRecord::Other => RecordView::Other,
            HexRecord::Malformed => RecordView::Malformed,
        }
    }
}

/// Whether a byte is an ASCII hexadecimal digit.
fn hex_digit_check(c: u8) -> (b: bool)
    ensures
        b == is_hex_digit(c),
{
    (0x30 <= c && c <= 0x39) || (0x61 <= c && c <= 0x66) || (0x41 <= c && c <= 0x46)
}

/// Numeric value of an ASCII hexadecimal digit.
fn hex_digit_value(c: u8) -> (v: u8)
    requires
        is_hex_digit(c),
    ensures
        v as nat == hex_val(c),
        v < 16,
{
    if 0x30 <= c && c <= 0x39 {
        c - 0x30
    } else if 0x61 <= c && c <= 0x66 {
        c - 0x61 + 10
    } else {
        c - 0x41 + 10
    }
}

/// The `k`-th byte encoded by a hex-digit pair of the line.
fn encoded_byte_at(line: &[u8], k: usize) -> (b: u8)
    requires
        2 * k + 2 < line@.len(),
        is_hex_digit(line@[2 * k + 1]),
        is_hex_digit(line@[2 * k + 2]),
    ensures
        b as nat == encoded_byte(line@, k as int),
{
    let n = line.len();
    assert(2 * k + 2 < n);
    let hi = hex_digit_value(line[2 * k + 1]);
    let lo = hex_digit_value(line[2 * k + 2]);
    hi * 16 + lo
}

/// Every encoded byte value fits in a byte.
proof fn lemma_encoded_byte_bound(s: Seq<u8>, k: int)
    ensures
        encoded_byte(s, k) < 256,
{
}

/// Decode one line of a hex-record stream into a typed record.
///
/// Never fails: a line that does not parse as a valid record yields
/// `HexRecord::Malformed` rather than an error.
pub fn parse_record(line: &[u8]) -> (r: HexRecord)
    ensures
        r@ == parse_record_spec(line@),
{
    let n = line.len();
    if n < 11 || (n - 1) % 2 != 0 || line[0] != 0x3a {
        return HexRecord::Malformed;
    }
    let mut i: usize = 1;
    while i < n
        invariant
            1 <= i <= n,
            n == line@.len(),
            forall|j: int| 1 <= j < i ==> is_hex_digit(line@[j]),
        decreases n - i,
    {
        if !hex_digit_check(line[i]) {
            return HexRecord::Malformed;
        }
        i = i + 1;
    }
    assert(line_shape_ok(line@));

    let pairs = (n - 1) / 2;
    let count = encoded_byte_at(line, 0);
    if count as usize != (n - 11) / 2 {
        return HexRecord::Malformed;
    }

    let mut sum: u32 = 0;
    let mut k: usize = 0;
    while k < pairs
        invariant
            0 <= k <= pairs,
            n == line@.len(),
            pairs == pair_count(line@),
            line_shape_ok(line@),
            sum as nat == byte_sum(line@, k as int) % 256,
        decreases pairs - k,
    {
        let b = encoded_byte_at(line, k);
        proof {
            lemma_encoded_byte_bound(line@, k as int);
            lemma_add_mod_noop(byte_sum(line@, k as int) as int, b as int, 256);
        }
        sum = (sum + b as u32) % 256;
        k = k + 1;
    }
    if sum != 0 {
        return HexRecord::Malformed;
    }
    assert(well_formed_line(line@));

    let rtype = encoded_byte_at(line, 3);
    if rtype == 0 {
        let off_hi = encoded_byte_at(line, 1);
        let off_lo = encoded_byte_at(line, 2);
        let offset: u16 = (off_hi as u16) * 256 + (off_lo as u16);
        let mut payload: Vec<u8> = Vec::new();
        let mut j: usize = 0;
        while j < count as usize
            invariant
                0 <= j <= count as usize,
                n == line@.len(),
                line_shape_ok(line@),
                count as nat == rec_count(line@),
                n == 11 + 2 * (count as usize),
                payload@ =~= rec_payload(line@).subrange(0, j as int),
            decreases count as usize - j,
        {
            let b = encoded_byte_at(line, 4 + j);
            payload.push(b);
            j = j + 1;
        }
        assert(payload@ =~= rec_payload(line@));
        HexRecord::Data { offset, payload }
    } else if rtype == 1 {
        if count == 0 {
            HexRecord::EndOfFile
        } else {
            HexRecord::Malformed
        }
    } else if rtype == 2 || rtype == 4 {
        if count == 2 {
            HexRecord::Other
        } else {
            HexRecord::Malformed
        }
    } else if rtype == 3 || rtype == 5 {
        if count == 4 {
            HexRecord::Other
        } else {
            HexRecord::Malformed
        }
    } else {
        HexRecord::Malformed
    }
}

} // verus!
