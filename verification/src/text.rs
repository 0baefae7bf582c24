//! Decimal rendering of integers and thousands grouping.

use vstd::prelude::*;

verus! {

/// The character of the decimal digit `d` (`d < 10`).
pub open spec fn digit_char(d: nat) -> char {
    (48 + d) as char
}

/// The decimal digits of `n`, most significant first, without leading zeros
/// (zero is the single digit `0`).
pub open spec fn decimal(n: nat) -> Seq<char>
    decreases n,
{
    if n < 10 {
        seq![digit_char(n)]
    } else {
        decimal(n / 10).push(digit_char(n % 10))
    }
}

/// `digits` with a comma inserted between every group of three characters,
/// counting from the right.
pub open spec fn group_thousands(digits: Seq<char>) -> Seq<char>
    decreases digits.len(),
{
    if digits.len() <= 3 {
        digits
    } else {
        group_thousands(digits.subrange(0, digits.len() - 3)) + seq![',']
            + digits.subrange(digits.len() - 3, digits.len() as int)
    }
}

fn digit_str(d: u64) -> (s: &'static str)
    requires
        d < 10,
    ensures
        s@ == seq![digit_char(d as nat)],
{
    if d == 0 {
        proof { reveal_strlit("0"); }
        "0"
    } else if d == 1 {
        proof { reveal_strlit("1"); }
        "1"
    } else if d == 2 {
        proof { reveal_strlit("2"); }
        "2"
    } else if d == 3 {
        proof { reveal_strlit("3"); }
        "3"
    } else if d == 4 {
        proof { reveal_strlit("4"); }
        "4"
    } else if d == 5 {
        proof { reveal_strlit("5"); }
        "5"
    } else if d == 6 {
        proof { reveal_strlit("6"); }
        "6"
    } else if d == 7 {
        proof { reveal_strlit("7"); }
        "7"
    } else if d == 8 {
        proof { reveal_strlit("8"); }
        "8"
    } else {
        proof { reveal_strlit("9"); }
        "9"
    }
}

/// Appends the decimal digits of `n` to `s`.
pub fn push_decimal(s: &mut String, n: u64)
    ensures
        final(s)@ == old(s)@ + decimal(n as nat),
    decreases n,
{
    if n >= 10 {
        push_decimal(s, n / 10);
    }
    s.append(digit_str(n % 10));
}

/// The decimal representation of `n`.
pub fn decimal_string(n: u64) -> (s: String)
    ensures
        s@ == decimal(n as nat),
{
    let mut s = String::new();
    push_decimal(&mut s, n);
    s
}

/// Every character of `decimal(n)` is a decimal digit, and there is at least one.
pub proof fn lemma_decimal_digits(n: nat)
    ensures
        decimal(n).len() >= 1,
        forall|i: int| 0 <= i < decimal(n).len() ==> '0' <= #[trigger] decimal(n)[i] <= '9',
    decreases n,
{
    if n >= 10 {
        lemma_decimal_digits(n / 10);
    }
}

/// Formats `n` in decimal with a comma between every group of three digits,
/// counting from the right (`1234567` gives `1,234,567`).
pub fn format_number(n: u64) -> (s: String)
    ensures
        s@ == group_thousands(decimal(n as nat)),
{
    let digits = decimal_string(n);
    let ghost d = digits@;
    proof {
        lemma_decimal_digits(n as nat);
    }
    let mut end: usize = digits.as_str().unicode_len();
    let mut result = String::new();
    assert(d.subrange(0, end as int) =~= d);
    assert(group_thousands(d) + result@ =~= group_thousands(d));
    while end > 3
        invariant
            end <= d.len(),
            d == digits@,
            digits.is_ascii(),
            group_thousands(d) == group_thousands(d.subrange(0, end as int)) + result@,
        decreases end,
    {
        let group = digits.as_str().substring_ascii(end - 3, end);
        let tail = String::from_str(",").concat(group).concat(result.as_str());
        proof {
            reveal_strlit(",");
            let prefix = d.subrange(0, end as int);
            assert(prefix.subrange(0, prefix.len() - 3) =~= d.subrange(0, end - 3));
            assert(prefix.subrange(prefix.len() - 3, prefix.len() as int) =~= group@);
            assert(group_thousands(d.subrange(0, end - 3)) + tail@ =~= group_thousands(
                d.subrange(0, end - 3),
            ) + seq![','] + group@ + result@);
        }
        result = tail;
        end = end - 3;
    }
    let head = digits.as_str().substring_ascii(0, end);
    String::from_str(head).concat(result.as_str())
}

/// `s` with every comma taken out.
pub open spec fn without_commas(s: Seq<char>) -> Seq<char>
    decreases s.len(),
{
    if s.len() == 0 {
        s
    } else if s.last() == ',' {
        without_commas(s.drop_last())
    } else {
        without_commas(s.drop_last()).push(s.last())
    }
}

proof fn lemma_without_commas_add(a: Seq<char>, b: Seq<char>)
    ensures
        without_commas(a + b) == without_commas(a) + without_commas(b),
    decreases b.len(),
{
    if b.len() == 0 {
        assert(a + b =~= a);
        assert(without_commas(a) + without_commas(b) =~= without_commas(a));
    } else {
        lemma_without_commas_add(a, b.drop_last());
        assert((a + b).drop_last() =~= a + b.drop_last());
        if b.last() != ',' {
            assert(without_commas(a) + without_commas(b.drop_last()).push(b.last()) =~= (
            without_commas(a) + without_commas(b.drop_last())).push(b.last()));
        }
    }
}

/// Grouping the digits of a number only inserts commas: taking them out
/// again gives back the digits, and there is one comma for every full three
/// digits beyond the first digit.
pub proof fn lemma_grouping_keeps_digits(n: nat)
    ensures
        without_commas(group_thousands(decimal(n))) == decimal(n),
        group_thousands(decimal(n)).len() == decimal(n).len() + (decimal(n).len() - 1) / 3,
{
    lemma_decimal_digits(n);
    lemma_grouping_digit_seq(decimal(n));
}

proof fn lemma_grouping_digit_seq(d: Seq<char>)
    requires
        d.len() >= 1,
        forall|i: int| 0 <= i < d.len() ==> '0' <= #[trigger] d[i] <= '9',
    ensures
        without_commas(group_thousands(d)) == d,
        group_thousands(d).len() == d.len() + (d.len() - 1) / 3,
    decreases d.len(),
{
    lemma_no_commas(d);
    if d.len() > 3 {
        let head = d.subrange(0, d.len() - 3);
        let tail = d.subrange(d.len() - 3, d.len() as int);
        lemma_grouping_digit_seq(head);
        lemma_no_commas(tail);
        lemma_without_commas_add(group_thousands(head) + seq![','], tail);
        lemma_without_commas_add(group_thousands(head), seq![',']);
        assert(without_commas(seq![',']) =~= Seq::<char>::empty()) by {
            let c = seq![','];
            assert(c.drop_last() =~= Seq::<char>::empty());
            assert(c.last() == ',');
            assert(without_commas(c.drop_last()) =~= Seq::<char>::empty());
        }
        assert(head + tail =~= d);
    }
}

proof fn lemma_no_commas(d: Seq<char>)
    requires
        forall|i: int| 0 <= i < d.len() ==> '0' <= #[trigger] d[i] <= '9',
    ensures
        without_commas(d) == d,
    decreases d.len(),
{
    if d.len() > 0 {
        lemma_no_commas(d.drop_last());
        assert(d.drop_last().push(d.last()) =~= d);
    }
}

proof fn lemma_digit_char(d: nat)
    requires
        d < 10,
    ensures
        digit_char(d) as int == 48 + d,
{
}

/// The number that the decimal digits `s` spell.
pub open spec fn digits_value(s: Seq<char>) -> int
    decreases s.len(),
{
    if s.len() == 0 {
        0
    } else {
        digits_value(s.drop_last()) * 10 + (s.last() as int - 48)
    }
}

/// The decimal digits of `n` spell `n`, and a number above 9 does not
/// start with the digit 0.
pub proof fn lemma_decimal_spells(n: nat)
    ensures
        digits_value(decimal(n)) == n,
        n >= 10 ==> decimal(n)[0] != '0',
        n < 10 ==> decimal(n).len() == 1,
    decreases n,
{
    let d = decimal(n);
    lemma_digit_char(n % 10);
    if n >= 10 {
        lemma_decimal_spells(n / 10);
        assert(d.drop_last() =~= decimal(n / 10));
        assert(d.last() == digit_char(n % 10));
        assert(digits_value(d) == digits_value(decimal(n / 10)) * 10 + (n % 10));
        assert(d[0] == decimal(n / 10)[0]);
        assert((n / 10) * 10 + n % 10 == n) by (nonlinear_arith);
        if n / 10 < 10 {
            lemma_digit_char(n / 10);
        }
    } else {
        assert(d.drop_last() =~= Seq::<char>::empty());
        assert(digits_value(d.drop_last()) == 0);
        assert(d.last() == digit_char(n));
    }
}

/// Grouping peels off the last three digits: for more than three digits, the
/// grouping is that of all but the last three, a comma, and the last three.
pub proof fn lemma_grouping_peels_three(d: Seq<char>)
    requires
        d.len() > 3,
    ensures
        group_thousands(d) == group_thousands(d.subrange(0, d.len() - 3)) + seq![',']
            + d.subrange(d.len() - 3, d.len() as int),
{
}

proof fn lemma_peeled_index(h: Seq<char>, tail: Seq<char>)
    requires
        tail.len() == 3,
    ensures
        ({
            let g = h + seq![','] + tail;
            &&& g.len() == h.len() + 4
            &&& forall|i: int| 0 <= i < h.len() ==> g[i] == h[i]
            &&& g[h.len() as int] == ','
            &&& g[h.len() + 1int] == tail[0]
            &&& g[h.len() + 2int] == tail[1]
            &&& g[h.len() + 3int] == tail[2]
        }),
{
}

/// A comma of a grouped number is followed by three digits and then by
/// another comma or the end.
pub open spec fn commas_lead_groups_of_three(g: Seq<char>) -> bool {
    forall|i: int|
        0 <= i < g.len() && #[trigger] g[i] == ',' ==> {
            &&& i + 4 <= g.len()
            &&& '0' <= g[i + 1] <= '9'
            &&& '0' <= g[i + 2] <= '9'
            &&& '0' <= g[i + 3] <= '9'
            &&& (i + 4 == g.len() || g[i + 4] == ',')
        }
}

/// The leading group of `g` is one to three digits long: `g` is made of
/// digits and commas, starts with a digit, and when it is longer than three
/// characters, one of its second to fourth characters is a comma.
pub open spec fn leading_group_of_one_to_three(g: Seq<char>) -> bool {
    &&& g.len() >= 1
    &&& '0' <= g[0] <= '9'
    &&& (g.len() <= 3 || g[1] == ',' || g[2] == ',' || g[3] == ',')
    &&& forall|i: int| 0 <= i < g.len() ==> #[trigger] g[i] == ',' || '0' <= g[i] <= '9'
}

proof fn lemma_head_digits(d: Seq<char>)
    requires
        d.len() > 3,
        forall|i: int| 0 <= i < d.len() ==> '0' <= #[trigger] d[i] <= '9',
    ensures
        forall|i: int|
            0 <= i < d.len() - 3 ==> '0' <= #[trigger] d.subrange(0, d.len() - 3)[i] <= '9',
        group_thousands(d) == group_thousands(d.subrange(0, d.len() - 3)) + seq![',']
            + d.subrange(d.len() - 3, d.len() as int),
{
    assert forall|i: int| 0 <= i < d.len() - 3 implies '0' <= #[trigger] d.subrange(
        0,
        d.len() - 3,
    )[i] <= '9' by {
        assert(d.subrange(0, d.len() - 3)[i] == d[i]);
    }
}

proof fn lemma_grouping_commas(d: Seq<char>)
    requires
        d.len() >= 1,
        forall|i: int| 0 <= i < d.len() ==> '0' <= #[trigger] d[i] <= '9',
    ensures
        commas_lead_groups_of_three(group_thousands(d)),
    decreases d.len(),
{
    if d.len() > 3 {
        let head = d.subrange(0, d.len() - 3);
        let tail = d.subrange(d.len() - 3, d.len() as int);
        lemma_head_digits(d);
        lemma_grouping_commas(head);
        let h = group_thousands(head);
        let g = h + seq![','] + tail;
        lemma_peeled_index(h, tail);
        assert(tail[0] == d[d.len() - 3] && tail[1] == d[d.len() - 2] && tail[2] == d[d.len()
            - 1]);
        assert forall|i: int| 0 <= i < g.len() && #[trigger] g[i] == ',' implies {
            &&& i + 4 <= g.len()
            &&& '0' <= g[i + 1] <= '9'
            &&& '0' <= g[i + 2] <= '9'
            &&& '0' <= g[i + 3] <= '9'
            &&& (i + 4 == g.len() || g[i + 4] == ',')
        } by {
            if i < h.len() {
                assert(h[i] == ',');
                if i + 4 < h.len() {
                    assert(g[i + 4] == h[i + 4]);
                }
            } else if i > h.len() {
                let j = i - h.len() - 1;
                assert(g[i] == tail[j]);
                assert(tail[j] == d[d.len() - 3 + j]);
            }
        }
    }
}

proof fn lemma_grouping_leading(d: Seq<char>)
    requires
        d.len() >= 1,
        forall|i: int| 0 <= i < d.len() ==> '0' <= #[trigger] d[i] <= '9',
    ensures
        leading_group_of_one_to_three(group_thousands(d)),
    decreases d.len(),
{
    let g = group_thousands(d);
    if d.len() > 3 {
        let head = d.subrange(0, d.len() - 3);
        let tail = d.subrange(d.len() - 3, d.len() as int);
        lemma_head_digits(d);
        lemma_grouping_leading(head);
        let h = group_thousands(head);
        lemma_peeled_index(h, tail);
        assert(g == h + seq![','] + tail);
        assert(tail[0] == d[d.len() - 3] && tail[1] == d[d.len() - 2] && tail[2] == d[d.len()
            - 1]);
        if h.len() <= 3 {
            assert(g[h.len() as int] == ',');
        } else {
            assert(g[1] == h[1] && g[2] == h[2] && g[3] == h[3]);
        }
        assert(g[0] == h[0]);
        assert forall|i: int| 0 <= i < g.len() implies #[trigger] g[i] == ',' || '0' <= g[i]
            <= '9' by {
            if i < h.len() {
                assert(g[i] == h[i]);
            } else if i > h.len() {
                let j = i - h.len() - 1;
                assert(g[i] == tail[j]);
                assert(tail[j] == d[d.len() - 3 + j]);
            }
        }
    }
}

/// The shape of a grouped number: every comma is followed by exactly three
/// digits and then by another comma or the end, and the leading group (up
/// to the first comma, or the whole text) has one to three digits.
pub proof fn lemma_grouping_shape(n: nat)
    ensures
        commas_lead_groups_of_three(group_thousands(decimal(n))),
        leading_group_of_one_to_three(group_thousands(decimal(n))),
{
    lemma_decimal_digits(n);
    lemma_grouping_commas(decimal(n));
    lemma_grouping_leading(decimal(n));
}

} // verus!
