//! The hex view of a loaded binary: sixteen bytes per line, each line holding
//! the offset, the bytes in hexadecimal and their printable characters.

use vstd::prelude::*;

use crate::hex::{
    hex_digit, hex_digit_char, hex_of, hex_value, is_hex_char, lemma_hex_digit_value,
    lemma_hex_len_u32, lemma_zero_pad_value, push_hex_padded, zero_pad,
};
use crate::text::push_char;

verus! {

/// Bytes shown on one line of the dump.
pub const ROW_BYTES: usize = 16;

/// Width to which the hexadecimal column of a line is padded.
pub const HEX_COLUMN_WIDTH: usize = 49;

/// Digits of the offset column, before zero padding stops.
pub const OFFSET_DIGITS: usize = 8;

/// The two hexadecimal digits of a byte.
pub open spec fn byte_hex(b: u8) -> Seq<char> {
    seq![hex_digit((b / 16) as nat), hex_digit((b % 16) as nat)]
}

/// The text that the byte at position `j` of a line contributes to the
/// hexadecimal column: the digits then a space, except at position 8, where
/// the space comes before the digits.
pub open spec fn hex_cell(j: int, b: u8) -> Seq<char> {
    if j == 8 {
        seq![' '] + byte_hex(b)
    } else {
        byte_hex(b) + seq![' ']
    }
}

/// The hexadecimal column of a line, before padding.
pub open spec fn hex_cells(chunk: Seq<u8>) -> Seq<char>
    decreases chunk.len(),
{
    if chunk.len() == 0 {
        seq![]
    } else {
        hex_cells(chunk.drop_last()) + hex_cell(chunk.len() - 1, chunk.last())
    }
}

/// `s` with spaces after it until it is at least `width` long.
pub open spec fn pad_right(s: Seq<char>, width: nat) -> Seq<char> {
    if s.len() >= width {
        s
    } else {
        s + Seq::new((width - s.len()) as nat, |i: int| ' ')
    }
}

/// A byte that the character column shows as itself: an ASCII graphic
/// character or the space.
pub open spec fn is_shown(b: u8) -> bool {
    (0x21 <= b && b <= 0x7e) || b == 0x20
}

/// The character that the character column shows for a byte.
pub open spec fn shown_char(b: u8) -> char {
    if is_shown(b) {
        b as char
    } else {
        '.'
    }
}

/// The character column of a line.
pub open spec fn char_column(chunk: Seq<u8>) -> Seq<char> {
    chunk.map_values(|b: u8| shown_char(b))
}

/// One line of the dump for the bytes `chunk` found at `offset`.
pub open spec fn dump_line(offset: nat, chunk: Seq<u8>) -> Seq<char> {
    zero_pad(hex_of(offset), OFFSET_DIGITS as nat) + seq![' ', ' '] + pad_right(
        hex_cells(chunk),
        HEX_COLUMN_WIDTH as nat,
    ) + seq![' ', ' '] + char_column(chunk) + seq!['\n']
}

/// The bytes of line `r` of `data`.
pub open spec fn row(data: Seq<u8>, r: nat) -> Seq<u8> {
    let start = ROW_BYTES * r;
    let end = if start + ROW_BYTES <= data.len() {
        start + ROW_BYTES
    } else {
        data.len() as int
    };
    data.subrange(start as int, end)
}

/// The number of lines that `n` bytes take.
pub open spec fn row_count(n: nat) -> nat {
    ((n + 15) / 16) as nat
}

/// The first `k` lines of the dump of `data`.
pub open spec fn dump_rows(data: Seq<u8>, k: nat) -> Seq<char>
    decreases k,
{
    if k == 0 {
        seq![]
    } else {
        dump_rows(data, (k - 1) as nat) + dump_line(
            (ROW_BYTES * (k - 1)) as nat,
            row(data, (k - 1) as nat),
        )
    }
}

/// The notice that ends a dump that reached its limit.
pub open spec fn truncation_notice() -> Seq<char> {
    "\n[truncated]\n"@
}

/// The leading bytes of `data` that a dump with the given limit shows.
pub open spec fn shown_bytes(data: Seq<u8>, limit: nat) -> Seq<u8> {
    if data.len() <= limit {
        data
    } else {
        data.take(limit as int)
    }
}

/// The dump of at most `limit` leading bytes of `data`; it ends with the
/// truncation notice when the bytes shown are exactly `limit` many.
pub open spec fn dump_text(data: Seq<u8>, limit: nat) -> Seq<char> {
    let shown = shown_bytes(data, limit);
    dump_rows(shown, row_count(shown.len())) + if shown.len() == limit {
        truncation_notice()
    } else {
        seq![]
    }
}

/// The hexadecimal column of a line holds three characters per byte.
pub proof fn lemma_hex_cells_len(chunk: Seq<u8>)
    ensures
        hex_cells(chunk).len() == 3 * chunk.len(),
    decreases chunk.len(),
{
    if chunk.len() > 0 {
        lemma_hex_cells_len(chunk.drop_last());
    }
}

/// The three characters of byte `j` sit at `3 * j` in the hexadecimal column.
pub proof fn lemma_hex_cells_at(chunk: Seq<u8>, j: int)
    requires
        0 <= j < chunk.len(),
    ensures
        hex_cells(chunk).subrange(3 * j, 3 * j + 3) == hex_cell(j, chunk[j]),
    decreases chunk.len(),
{
    let n = chunk.len();
    let pre = hex_cells(chunk.drop_last());
    lemma_hex_cells_len(chunk.drop_last());
    if j < n - 1 {
        lemma_hex_cells_at(chunk.drop_last(), j);
        assert(hex_cells(chunk).subrange(3 * j, 3 * j + 3) =~= pre.subrange(3 * j, 3 * j + 3));
    } else {
        assert(hex_cells(chunk).subrange(3 * j, 3 * j + 3) =~= hex_cell(j, chunk[j]));
    }
}

/// The two digits of a byte denote the byte.
pub proof fn lemma_byte_hex_value(b: u8)
    ensures
        hex_value(byte_hex(b)) == b,
        is_hex_char(byte_hex(b)[0]),
        is_hex_char(byte_hex(b)[1]),
{
    lemma_hex_digit_value((b / 16) as nat);
    lemma_hex_digit_value((b % 16) as nat);
    let h = byte_hex(b);
    assert(h.drop_last() =~= seq![hex_digit((b / 16) as nat)]);
    assert(h.drop_last().drop_last() =~= Seq::<char>::empty());
    assert(hex_value(Seq::<char>::empty()) == 0);
    assert(hex_value(h.drop_last()) == hex_value(h.drop_last().drop_last()) * 16
        + (b / 16) as nat);
    assert(hex_value(h) == hex_value(h.drop_last()) * 16 + (b % 16) as nat);
}

/// The layout of one line whose offset fits in eight digits: the offset in
/// eight hexadecimal digits, two spaces, for byte `j` two hexadecimal digits
/// denoting it at `10 + 3 * j` (byte 8 one further on, after a space), padding to
/// column 59, two spaces, byte `j` at `61 + j` shown as itself when it is an
/// ASCII graphic character or the space and as `.` otherwise, and a newline.
pub proof fn law_dump_line_layout(offset: nat, chunk: Seq<u8>)
    requires
        offset < 0x1_0000_0000,
        1 <= chunk.len() <= ROW_BYTES,
    ensures
        ({
            let l = dump_line(offset, chunk);
            &&& l.len() == 62 + chunk.len()
            &&& hex_value(l.take(8)) == offset
            &&& forall|i: int| 0 <= i < 8 ==> is_hex_char(#[trigger] l[i])
            &&& l[8] == ' ' && l[9] == ' ' && l[59] == ' ' && l[60] == ' '
            &&& l[61 + chunk.len() as int] == '\n'
            &&& forall|j: int|
                0 <= j < chunk.len() ==> #[trigger] l[61 + j] == (if (0x21 <= chunk[j] && chunk[j]
                    <= 0x7e) || chunk[j] == 0x20 {
                    chunk[j] as char
                } else {
                    '.'
                })
            &&& forall|j: int|
                #![trigger chunk[j]]
                0 <= j < chunk.len() && j != 8 ==> hex_value(l.subrange(10 + 3 * j, 12 + 3 * j))
                    == chunk[j]
            &&& chunk.len() > 8 ==> hex_value(l.subrange(35, 37)) == chunk[8] && l[34] == ' '
        }),
{
    lemma_hex_len_u32(offset);
    lemma_zero_pad_value(offset, 8);
    lemma_hex_cells_len(chunk);
    let l = dump_line(offset, chunk);
    let off = zero_pad(hex_of(offset), 8);
    let cells = hex_cells(chunk);
    let padded = pad_right(cells, 49);
    assert(padded.len() == 49);
    assert(l =~= off + seq![' ', ' '] + padded + seq![' ', ' '] + char_column(chunk) + seq!['\n']);
    assert(l.take(8) =~= off);
    assert forall|i: int| 0 <= i < 8 implies is_hex_char(#[trigger] l[i]) by {
        assert(l[i] == off[i]);
    }
    assert forall|j: int| 0 <= j < chunk.len() implies #[trigger] l[61 + j] == (if (0x21
        <= chunk[j] && chunk[j] <= 0x7e) || chunk[j] == 0x20 {
        chunk[j] as char
    } else {
        '.'
    }) by {
        assert(l[61 + j] == char_column(chunk)[j]);
    }
    assert forall|j: int| #![trigger chunk[j]] 0 <= j < chunk.len() implies ({
        let g: int = if j == 8 {
            1
        } else {
            0
        };
        hex_value(l.subrange(10 + 3 * j + g, 12 + 3 * j + g)) == chunk[j]
    }) by {
        lemma_hex_cells_at(chunk, j);
        lemma_byte_hex_value(chunk[j]);
        let g: int = if j == 8 {
            1
        } else {
            0
        };
        assert(l.subrange(10 + 3 * j + g, 12 + 3 * j + g) =~= cells.subrange(3 * j + g, 3 * j + g + 2));
        let c3 = cells.subrange(3 * j, 3 * j + 3);
        assert(cells.subrange(3 * j + g, 3 * j + g + 2) =~= c3.subrange(g, g + 2));
        if j == 8 {
            assert((seq![' '] + byte_hex(chunk[j])).subrange(1, 3) =~= byte_hex(chunk[j]));
        } else {
            assert((byte_hex(chunk[j]) + seq![' ']).subrange(0, 2) =~= byte_hex(chunk[j]));
        }
    }
    assert forall|j: int|
        #![trigger chunk[j]]
        0 <= j < chunk.len() && j != 8 implies hex_value(l.subrange(10 + 3 * j, 12 + 3 * j))
        == chunk[j] by {}
    if chunk.len() > 8 {
        assert(chunk[8] == chunk[8]);
        lemma_hex_cells_at(chunk, 8);
        assert(l[34] == cells[24]);
        assert(cells[24] == hex_cell(8, chunk[8])[0]);
    }
}

/// The first `k` lines of a dump are a prefix of its first `m` lines.
pub proof fn lemma_dump_rows_prefix(data: Seq<u8>, k: nat, m: nat)
    requires
        k <= m,
    ensures
        dump_rows(data, k).len() <= dump_rows(data, m).len(),
        dump_rows(data, m).subrange(0, dump_rows(data, k).len() as int) == dump_rows(data, k),
    decreases m,
{
    if k < m {
        lemma_dump_rows_prefix(data, k, (m - 1) as nat);
        let prev = dump_rows(data, (m - 1) as nat);
        assert(dump_rows(data, m).subrange(0, dump_rows(data, k).len() as int) =~= prev.subrange(
            0,
            dump_rows(data, k).len() as int,
        ));
    } else {
        assert(dump_rows(data, m).subrange(0, dump_rows(data, k).len() as int) =~= dump_rows(
            data,
            k,
        ));
    }
}

/// Full lines whose offsets fit in eight digits are 78 characters long.
pub proof fn lemma_dump_rows_len(data: Seq<u8>, k: nat)
    requires
        ROW_BYTES * k <= data.len(),
        ROW_BYTES * k <= 0x1_0000_0000,
    ensures
        dump_rows(data, k).len() == 78 * k,
    decreases k,
{
    if k > 0 {
        lemma_dump_rows_len(data, (k - 1) as nat);
        let r = row(data, (k - 1) as nat);
        assert(r.len() == ROW_BYTES);
        law_dump_line_layout((ROW_BYTES * (k - 1)) as nat, r);
    }
}

/// Line `r` of a dump stands at `78 * r` when the lines before it are full
/// and its offset fits in eight digits.
proof fn lemma_dump_text_line(data: Seq<u8>, limit: nat, r: nat)
    requires
        ROW_BYTES * r < shown_bytes(data, limit).len(),
        ROW_BYTES * r < 0x1_0000_0000,
    ensures
        ({
            let line = dump_line((ROW_BYTES * r) as nat, row(shown_bytes(data, limit), r));
            &&& 78 * (r as int) + line.len() <= dump_text(data, limit).len()
            &&& dump_text(data, limit).subrange(78 * (r as int), 78 * (r as int) + line.len()) == line
        }),
{
    let shown = shown_bytes(data, limit);
    let n = shown.len();
    let rows = row_count(n);
    assert(r + 1 <= rows);
    lemma_dump_rows_prefix(shown, r + 1, rows);
    lemma_dump_rows_len(shown, r);
    let before = dump_rows(shown, r);
    let line = dump_line((ROW_BYTES * r) as nat, row(shown, r));
    let all = dump_rows(shown, rows);
    let t = dump_text(data, limit);
    assert(dump_rows(shown, r + 1) == before + line);
    assert(t.subrange(0, all.len() as int) =~= all);
    assert(t.subrange(78 * (r as int), 78 * (r as int) + line.len()) =~= (before + line).subrange(
        78 * (r as int),
        78 * (r as int) + line.len(),
    ));
    assert((before + line).subrange(78 * (r as int), 78 * (r as int) + line.len()) =~= line);
}

/// Where each shown byte appears in the dump: byte `k` (among the shown
/// ones, its offset fitting in eight digits) lies on line `k / 16`, which
/// starts at `78 * (k / 16)` with the line's offset in hexadecimal; its two
/// hexadecimal digits denote it, and its character column entry is the byte
/// itself when it is an ASCII graphic character or the space, `.` otherwise.
pub proof fn law_dump_text_byte(data: Seq<u8>, limit: nat, k: int)
    requires
        0 <= k < data.len(),
        k < limit,
        k < 0x1_0000_0000,
    ensures
        ({
            let t = dump_text(data, limit);
            let b = data[k];
            let j = k % 16;
            let start = 78 * (k / 16);
            &&& hex_value(t.subrange(start, start + 8)) == 16 * (k / 16)
            &&& t[start + 61 + j] == (if (0x21 <= b && b <= 0x7e) || b == 0x20 {
                b as char
            } else {
                '.'
            })
            &&& j != 8 ==> hex_value(t.subrange(start + 10 + 3 * j, start + 12 + 3 * j)) == b
            &&& j == 8 ==> hex_value(t.subrange(start + 35, start + 37)) == b
        }),
{
    let shown = shown_bytes(data, limit);
    let r = (k / 16) as nat;
    let j = k % 16;
    assert(16 * r <= k && j == k - 16 * r && k < shown.len());
    let ch = row(shown, r);
    assert(ch.len() >= j + 1 && ch.len() <= 16);
    assert(ch[j] == data[k]);
    let line = dump_line((ROW_BYTES * r) as nat, ch);
    law_dump_line_layout((ROW_BYTES * r) as nat, ch);
    lemma_dump_text_line(data, limit, r);
    let t = dump_text(data, limit);
    let start: int = 78 * (r as int);
    let seg = t.subrange(start, start + line.len());
    assert(seg == line);
    assert(t.subrange(start, start + 8) =~= line.take(8));
    assert(t[start + 61 + j] == seg[61 + j]);
    if j != 8 {
        assert(t.subrange(start + 10 + 3 * j, start + 12 + 3 * j) =~= line.subrange(
            10 + 3 * j,
            12 + 3 * j,
        ));
    } else {
        assert(t.subrange(start + 35, start + 37) =~= line.subrange(35, 37));
    }
}

/// The size of a dump of `n` shown bytes (offsets fitting in eight digits):
/// 78 characters per full line, 62 plus the byte count for a last partial
/// line, and the 13-character truncation notice at the end exactly when the
/// shown bytes are `limit` many, that is when `data` holds at least `limit`
/// bytes.
pub proof fn law_dump_text_size(data: Seq<u8>, limit: nat)
    requires
        shown_bytes(data, limit).len() <= 0x1_0000_0000,
    ensures
        ({
            let n = shown_bytes(data, limit).len();
            let t = dump_text(data, limit);
            let body = 78 * (n / 16) + if n % 16 > 0 {
                62 + n % 16
            } else {
                0
            };
            &&& n == if data.len() <= limit {
                data.len()
            } else {
                limit
            }
            &&& data.len() >= limit ==> t.len() == body + 13 && t.skip(body as int) == "\n[truncated]\n"@
            &&& data.len() < limit ==> t.len() == body
        }),
{
    reveal_strlit("\n[truncated]\n");
    let shown = shown_bytes(data, limit);
    let n = shown.len();
    let q = n / 16;
    let rows = row_count(n);
    lemma_dump_rows_len(shown, q);
    let rows_text = dump_rows(shown, rows);
    if n % 16 > 0 {
        assert(rows == q + 1);
        let ch = row(shown, q);
        assert(ch.len() == n % 16);
        law_dump_line_layout((ROW_BYTES * q) as nat, ch);
        assert(rows_text == dump_rows(shown, q) + dump_line((ROW_BYTES * q) as nat, ch));
    } else {
        assert(rows == q);
    }
    let t = dump_text(data, limit);
    if data.len() >= limit {
        assert(t.skip(rows_text.len() as int) =~= "\n[truncated]\n"@);
    }
}

/// Whether the character column shows a byte as itself.
pub fn shows_as_itself(b: u8) -> (r: bool)
    ensures
        r == is_shown(b),
{
    (0x21 <= b && b <= 0x7e) || b == 0x20
}

/// Appends one line of the dump: the bytes `data[start..end]` at offset `start`.
fn push_line(out: &mut String, data: &[u8], start: usize, end: usize)
    requires
        start < end <= data.len(),
        end - start <= ROW_BYTES,
    ensures
        final(out)@ == old(out)@ + dump_line(start as nat, data@.subrange(start as int, end as int)),
{
    let ghost chunk = data@.subrange(start as int, end as int);
    let ghost before = out@;
    push_hex_padded(out, start as u64, OFFSET_DIGITS);
    push_char(out, ' ');
    push_char(out, ' ');
    let ghost after_offset = out@;

    let mut j: usize = start;
    while j < end
        invariant
            start <= j <= end <= data.len(),
            chunk == data@.subrange(start as int, end as int),
            out@ == after_offset + hex_cells(data@.subrange(start as int, j as int)),
        decreases end - j,
    {
        let b = data[j];
        let hi = hex_digit_char(b / 16);
        let lo = hex_digit_char(b % 16);
        let ghost prev = out@;
        if j - start == 8 {
            push_char(out, ' ');
            push_char(out, hi);
            push_char(out, lo);
        } else {
            push_char(out, hi);
            push_char(out, lo);
            push_char(out, ' ');
        }
        proof {
            let s = data@.subrange(start as int, j + 1);
            assert(s.drop_last() =~= data@.subrange(start as int, j as int));
            assert(s.last() == b);
            assert(out@ =~= prev + hex_cell(j - start, b));
        }
        j = j + 1;
    }
    proof {
        lemma_hex_cells_len(chunk);
    }
    let cells_len = 3 * (end - start);
    let mut k: usize = cells_len;
    while k < HEX_COLUMN_WIDTH
        invariant
            cells_len == 3 * (end - start),
            cells_len <= k <= HEX_COLUMN_WIDTH,
            hex_cells(chunk).len() == cells_len,
            out@ == after_offset + hex_cells(chunk) + Seq::new((k - cells_len) as nat, |i: int| ' '),
        decreases HEX_COLUMN_WIDTH - k,
    {
        push_char(out, ' ');
        proof {
            assert(Seq::new((k - cells_len) as nat, |i: int| ' ').push(' ') =~= Seq::new(
                (k + 1 - cells_len) as nat,
                |i: int| ' ',
            ));
        }
        k = k + 1;
    }
    proof {
        assert(after_offset + hex_cells(chunk) + Seq::new((k - cells_len) as nat, |i: int| ' ')
            =~= after_offset + pad_right(hex_cells(chunk), HEX_COLUMN_WIDTH as nat));
    }
    push_char(out, ' ');
    push_char(out, ' ');
    let ghost after_hex = out@;

    let mut j: usize = start;
    while j < end
        invariant
            start <= j <= end <= data.len(),
            out@ == after_hex + char_column(data@.subrange(start as int, j as int)),
        decreases end - j,
    {
        let b = data[j];
        let c = if shows_as_itself(b) {
            b as char
        } else {
            '.'
        };
        push_char(out, c);
        proof {
            assert(char_column(data@.subrange(start as int, j + 1)) =~= char_column(
                data@.subrange(start as int, j as int),
            ).push(shown_char(b)));
        }
        j = j + 1;
    }
    push_char(out, '\n');
    proof {
        assert(out@ =~= before + dump_line(start as nat, chunk));
    }
}

/// The hex view of at most `limit` leading bytes of `data`, one line per
/// sixteen bytes, followed by a truncation notice when the bytes shown are
/// exactly `limit` many.
pub fn hex_dump(data: &[u8], limit: usize) -> (out: String)
    ensures
        out@ == dump_text(data@, limit as nat),
{
    let n = if data.len() < limit {
        data.len()
    } else {
        limit
    };
    let ghost shown = if data@.len() <= limit {
        data@
    } else {
        data@.take(limit as int)
    };
    assert(shown =~= data@.take(n as int));
    let mut out = String::new();
    let mut start: usize = 0;
    let mut r: usize = 0;
    while start < n
        invariant
            n <= data.len(),
            shown == data@.take(n as int),
            start <= n,
            (start < n && start == ROW_BYTES * r) || (start == n && ROW_BYTES * r >= n && (r == 0
                || ROW_BYTES * (r - 1) < n)),
            out@ == dump_rows(shown, r as nat),
        decreases n - start,
    {
        let end = if n - start > ROW_BYTES {
            start + ROW_BYTES
        } else {
            n
        };
        let ghost prev = out@;
        push_line(&mut out, data, start, end);
        proof {
            assert(row(shown, r as nat) =~= data@.subrange(start as int, end as int));
            assert(dump_rows(shown, (r + 1) as nat) == dump_rows(shown, r as nat) + dump_line(
                (ROW_BYTES * r) as nat,
                row(shown, r as nat),
            ));
        }
        start = end;
        r = r + 1;
    }
    assert(r == row_count(n as nat));
    if n == limit {
        out.append("\n[truncated]\n");
    }
    out
}

} // verus!
