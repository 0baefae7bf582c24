//! The lines that the statistics displays show for packets.

use crate::text::{decimal, lemma_decimal_digits, push_decimal};
use vstd::prelude::*;

verus! {

/// The decimal values of `bytes`, separated by a comma and a space.
pub open spec fn join_decimal(bytes: Seq<u8>) -> Seq<char>
    decreases bytes.len(),
{
    if bytes.len() == 0 {
        Seq::empty()
    } else if bytes.len() == 1 {
        decimal(bytes[0] as nat)
    } else {
        join_decimal(bytes.drop_last()) + seq![',', ' '] + decimal(bytes.last() as nat)
    }
}

/// `bytes` written as a list, as Rust's `Debug` writes a byte slice:
/// `[1, 22, 255]`.
pub open spec fn debug_bytes(bytes: Seq<u8>) -> Seq<char> {
    seq!['['] + join_decimal(bytes) + seq![']']
}

/// `content` cut to fit `width`: when it is longer, its first `width - 3`
/// characters (none when `width < 3`) followed by `...`.
pub open spec fn truncated(content: Seq<char>, width: nat) -> Seq<char> {
    if content.len() > width {
        content.subrange(0, if width >= 3 { width - 3 } else { 0 }) + seq!['.', '.', '.']
    } else {
        content
    }
}

/// The width left for packet data on a terminal of `cols` columns: 30
/// columns go to the label.
pub open spec fn data_width(cols: nat) -> nat {
    if cols >= 30 {
        (cols - 30) as nat
    } else {
        0
    }
}

proof fn lemma_join_decimal_ascii(bytes: Seq<u8>)
    ensures
        forall|i: int|
            0 <= i < join_decimal(bytes).len() ==> '\0' <= #[trigger] join_decimal(bytes)[i]
                <= '\u{7f}',
    decreases bytes.len(),
{
    if bytes.len() == 1 {
        lemma_decimal_digits(bytes[0] as nat);
    } else if bytes.len() > 1 {
        lemma_join_decimal_ascii(bytes.drop_last());
        lemma_decimal_digits(bytes.last() as nat);
        let a = join_decimal(bytes.drop_last());
        let b = decimal(bytes.last() as nat);
        assert forall|i: int| 0 <= i < join_decimal(bytes).len() implies '\0'
            <= #[trigger] join_decimal(bytes)[i] <= '\u{7f}' by {
            if i < a.len() {
                assert(join_decimal(bytes)[i] == a[i]);
            } else if i >= a.len() + 2 {
                assert(join_decimal(bytes)[i] == b[i - a.len() - 2]);
            }
        }
    }
}

/// Writes `data` as Rust's `Debug` writes a byte slice: `[1, 22, 255]`.
pub fn render_bytes(data: &[u8]) -> (s: String)
    ensures
        s@ == debug_bytes(data@),
{
    let mut s = String::from_str("[");
    proof {
        reveal_strlit("[");
        reveal_strlit("]");
    }
    let n = data.len();
    let mut i: usize = 0;
    while i < n
        invariant
            n == data@.len(),
            i <= n,
            s@ == seq!['['] + join_decimal(data@.subrange(0, i as int)),
        decreases n - i,
    {
        if i > 0 {
            proof {
                reveal_strlit(", ");
            }
            s.append(", ");
        }
        push_decimal(&mut s, data[i] as u64);
        proof {
            let next = data@.subrange(0, i + 1);
            assert(next.drop_last() =~= data@.subrange(0, i as int));
            if i > 0 {
                assert(next.last() == data@[i as int]);
                assert(join_decimal(next) == join_decimal(next.drop_last()) + seq![',', ' ']
                    + decimal(next.last() as nat));
            }
            assert(s@ =~= seq!['['] + join_decimal(next));
        }
        i = i + 1;
    }
    s.append("]");
    assert(data@.subrange(0, n as int) =~= data@);
    s
}

/// The line shown for a packet: its bytes as `render_bytes` writes them,
/// cut to `max_width` columns as `truncated` says.
pub fn packet_line(data: &[u8], max_width: usize) -> (s: String)
    ensures
        s@ == truncated(debug_bytes(data@), max_width as nat),
{
    let content = render_bytes(data);
    proof {
        lemma_join_decimal_ascii(data@);
        let c = debug_bytes(data@);
        let j = join_decimal(data@);
        assert forall|i: int| 0 <= i < c.len() implies '\0' <= #[trigger] c[i] <= '\u{7f}' by {
            if 0 < i < c.len() - 1 {
                assert(c[i] == j[i - 1]);
            }
        }
    }
    let len = content.as_str().unicode_len();
    if len > max_width {
        let keep: usize = if max_width >= 3 {
            max_width - 3
        } else {
            0
        };
        proof {
            reveal_strlit("...");
        }
        String::from_str(content.as_str().substring_ascii(0, keep)).concat("...")
    } else {
        content
    }
}

/// The width left for packet data on a terminal of `cols` columns.
pub fn display_width(cols: u16) -> (w: usize)
    ensures
        w == data_width(cols as nat),
{
    if cols >= 30 {
        (cols - 30) as usize
    } else {
        0
    }
}

/// How many bytes of a payload of `payload_len` bytes the sender shows on a
/// terminal of `cols` columns: as many as fit, and no more than there are.
pub fn preview_len(cols: u16, payload_len: usize) -> (n: usize)
    ensures
        n == if data_width(cols as nat) < payload_len {
            data_width(cols as nat)
        } else {
            payload_len as nat
        },
{
    let w = display_width(cols);
    if w < payload_len {
        w
    } else {
        payload_len
    }
}

/// A shown packet line is never wider than `max_width`, or than the three
/// dots when `max_width` is under 3; a line that fits is shown whole.
pub proof fn lemma_truncated_fits(content: Seq<char>, width: nat)
    ensures
        truncated(content, width).len() <= if width >= 3 { width } else { 3 },
        content.len() <= width ==> truncated(content, width) == content,
        content.len() > width && width >= 3 ==> truncated(content, width).len() == width,
{
}

/// The list has one entry per byte, in order: an empty slice has no
/// entries, a single byte is its decimal digits, and appending a byte to a
/// nonempty slice appends `, ` and that byte's digits.
pub proof fn lemma_one_entry_per_byte(bytes: Seq<u8>, b: u8)
    ensures
        join_decimal(Seq::<u8>::empty()) == Seq::<char>::empty(),
        join_decimal(seq![b]) == decimal(b as nat),
        bytes.len() > 0 ==> join_decimal(bytes.push(b)) == join_decimal(bytes) + seq![',', ' ']
            + decimal(b as nat),
        debug_bytes(bytes)[0] == '[',
        debug_bytes(bytes).last() == ']',
{
    assert(bytes.push(b).drop_last() =~= bytes);
}

/// A cut line keeps the start of the content: when the content is longer
/// than the width, the line is the first `width - 3` characters of the
/// content (none below width 3), unchanged, followed by three dots.
pub proof fn lemma_truncated_keeps_prefix(content: Seq<char>, width: nat)
    ensures
        content.len() > width ==> {
            let keep: int = if width >= 3 { width - 3 } else { 0 };
            let line = truncated(content, width);
            &&& line.len() == keep + 3
            &&& forall|i: int| 0 <= i < keep ==> #[trigger] line[i] == content[i]
            &&& line[keep] == '.'
            &&& line[keep + 1] == '.'
            &&& line[keep + 2] == '.'
        },
{
}

} // verus!
