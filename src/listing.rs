//! The numbered listing of the identifiers that the template service offers.

use crate::text::{fields, split_fields, views};
use vstd::prelude::*;

verus! {

/// The character of decimal digit `d`.
pub open spec fn digit(d: nat) -> char {
    seq!['0', '1', '2', '3', '4', '5', '6', '7', '8', '9'][d as int]
}

/// The decimal notation of `n`, without leading zeros.
pub open spec fn decimal(n: nat) -> Seq<char>
    decreases n,
{
    if n < 10 {
        seq![digit(n)]
    } else {
        decimal(n / 10).push(digit(n % 10))
    }
}

/// The line that shows identifier `id` at 0-based position `i`:
/// `"<i + 1>. <id>"`.
pub open spec fn list_line(i: nat, id: Seq<char>) -> Seq<char> {
    decimal(i + 1) + ". "@ + id
}

/// The lines that show a comma-separated list `text`, one per field, in order.
pub open spec fn list_lines(text: Seq<char>) -> Seq<Seq<char>> {
    let ids = fields(text);
    Seq::new(ids.len(), |i: int| list_line(i as nat, ids[i]))
}

/// Appends the decimal notation of `n` to `out`.
pub fn push_decimal(out: &mut String, n: usize)
    ensures
        final(out)@ == old(out)@ + decimal(n as nat),
    decreases n,
{
    if n >= 10 {
        push_decimal(out, n / 10);
    }
    let d = n % 10;
    let all = "0123456789";
    proof {
        reveal_strlit("0123456789");
    }
    let one = all.substring_char(d, d + 1);
    assert(one@ == seq![digit(d as nat)]) by {
        assert(all@ == seq!['0', '1', '2', '3', '4', '5', '6', '7', '8', '9']);
    }
    out.append(one);
}

/// The numbered lines that show the service's comma-separated list `text`:
/// `"1. <first>"`, `"2. <second>"`, and so on, in the order of `text`.
pub fn listing(text: &str) -> (r: Vec<String>)
    ensures
        views(r@) == list_lines(text@),
{
    let ids = split_fields(text);
    let n = ids.len();
    let mut out: Vec<String> = Vec::new();
    let mut i: usize = 0;
    while i < n
        invariant
            n == ids@.len(),
            views(ids@) == fields(text@),
            i <= n,
            views(out@) == list_lines(text@).take(i as int),
        decreases n - i,
    {
        let mut line = String::new();
        push_decimal(&mut line, i + 1);
        line.append(". ");
        line.append(ids[i].as_str());
        assert(views(ids@)[i as int] == ids@[i as int]@);
        out.push(line);
        assert(views(out@) == views(out@.drop_last()).push(line@));
        assert(list_lines(text@).take(i + 1) == list_lines(text@).take(i as int).push(line@));
        i = i + 1;
    }
    assert(list_lines(text@).take(n as int) == list_lines(text@));
    out
}

} // verus!
