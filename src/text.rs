//! Splitting and joining of identifier lists.

use vstd::prelude::*;

verus! {

/// The views of a sequence of strings.
pub open spec fn views(v: Seq<String>) -> Seq<Seq<char>> {
    v.map_values(|s: String| s@)
}

/// The Unicode `White_Space` property, as `char::is_whitespace` documents it.
pub open spec fn is_space(c: char) -> bool {
    let v = c as u32;
    (9 <= v && v <= 13) || v == 32 || v == 0x85 || v == 0xa0 || v == 0x1680
        || (0x2000 <= v && v <= 0x200a) || v == 0x2028 || v == 0x2029 || v == 0x202f
        || v == 0x205f || v == 0x3000
}

/// Whether `c` is a whitespace character.
pub fn is_space_char(c: char) -> (r: bool)
    ensures
        r == is_space(c),
{
    let v = c as u32;
    (9 <= v && v <= 13) || v == 32 || v == 0x85 || v == 0xa0 || v == 0x1680
        || (0x2000 <= v && v <= 0x200a) || v == 0x2028 || v == 0x2029 || v == 0x202f
        || v == 0x205f || v == 0x3000
}

/// Reading `s` from left to right: the words completed so far, and the
/// (possibly empty) word being read at the end of `s`.
pub open spec fn words_acc(s: Seq<char>) -> (Seq<Seq<char>>, Seq<char>)
    decreases s.len(),
{
    if s.len() == 0 {
        (seq![], seq![])
    } else {
        let (done, cur) = words_acc(s.drop_last());
        if is_space(s.last()) {
            if cur.len() > 0 {
                (done.push(cur), seq![])
            } else {
                (done, seq![])
            }
        } else {
            (done, cur.push(s.last()))
        }
    }
}

/// The maximal runs of non-whitespace characters of `s`, in order.
pub open spec fn words(s: Seq<char>) -> Seq<Seq<char>> {
    let (done, cur) = words_acc(s);
    if cur.len() > 0 {
        done.push(cur)
    } else {
        done
    }
}

/// Splits `s` on whitespace; runs of whitespace separate words and no word is
/// empty.
pub fn split_words(s: &str) -> (r: Vec<String>)
    ensures
        views(r@) == words(s@),
{
    let n = s.unicode_len();
    let mut out: Vec<String> = Vec::new();
    let mut start: usize = 0;
    let mut i: usize = 0;
    while i < n
        invariant
            n == s@.len(),
            start <= i <= n,
            words_acc(s@.take(i as int)) == (views(out@), s@.subrange(start as int, i as int)),
        decreases n - i,
    {
        let c = s.get_char(i);
        assert(s@.take(i + 1).drop_last() == s@.take(i as int));
        assert(s@.take(i + 1).last() == c);
        if is_space_char(c) {
            if start < i {
                let w = String::from_str(s.substring_char(start, i));
                out.push(w);
                assert(views(out@) == views(out@.drop_last()).push(w@));
            }
            start = i + 1;
        } else {
            assert(s@.subrange(start as int, i + 1) == s@.subrange(start as int, i as int).push(c));
        }
        i = i + 1;
    }
    assert(s@.take(n as int) == s@);
    if start < n {
        let w = String::from_str(s.substring_char(start, n));
        out.push(w);
        assert(views(out@) == views(out@.drop_last()).push(w@));
    }
    out
}

/// Reading `s` from left to right: the comma-separated fields completed so
/// far, and the field being read at the end of `s`.
pub open spec fn fields_acc(s: Seq<char>) -> (Seq<Seq<char>>, Seq<char>)
    decreases s.len(),
{
    if s.len() == 0 {
        (seq![], seq![])
    } else {
        let (done, cur) = fields_acc(s.drop_last());
        if s.last() == ',' {
            (done.push(cur), seq![])
        } else {
            (done, cur.push(s.last()))
        }
    }
}

/// The pieces of `s` between commas, in order, empty ones included; a text
/// without a comma is a single field.
pub open spec fn fields(s: Seq<char>) -> Seq<Seq<char>> {
    let (done, cur) = fields_acc(s);
    done.push(cur)
}

/// Splits `s` at every comma, keeping empty pieces and surrounding spaces.
pub fn split_fields(s: &str) -> (r: Vec<String>)
    ensures
        views(r@) == fields(s@),
{
    let n = s.unicode_len();
    let mut out: Vec<String> = Vec::new();
    let mut start: usize = 0;
    let mut i: usize = 0;
    while i < n
        invariant
            n == s@.len(),
            start <= i <= n,
            fields_acc(s@.take(i as int)) == (views(out@), s@.subrange(start as int, i as int)),
        decreases n - i,
    {
        let c = s.get_char(i);
        assert(s@.take(i + 1).drop_last() == s@.take(i as int));
        assert(s@.take(i + 1).last() == c);
        if c == ',' {
            let w = String::from_str(s.substring_char(start, i));
            out.push(w);
            assert(views(out@) == views(out@.drop_last()).push(w@));
            start = i + 1;
        } else {
            assert(s@.subrange(start as int, i + 1) == s@.subrange(start as int, i as int).push(c));
        }
        i = i + 1;
    }
    assert(s@.take(n as int) == s@);
    let w = String::from_str(s.substring_char(start, n));
    out.push(w);
    assert(views(out@) == views(out@.drop_last()).push(w@));
    out
}

/// The identifiers of `ids` with a comma between each two, in order.
pub open spec fn joined(ids: Seq<Seq<char>>) -> Seq<char>
    decreases ids.len(),
{
    if ids.len() == 0 {
        seq![]
    } else if ids.len() == 1 {
        ids[0]
    } else {
        joined(ids.drop_last()) + seq![','] + ids.last()
    }
}

/// Joins `ids` with commas, in the given order.
pub fn join_fields(ids: &Vec<String>) -> (r: String)
    ensures
        r@ == joined(views(ids@)),
{
    let n = ids.len();
    if n == 0 {
        return String::new();
    }
    let mut out = ids[0].clone();
    let mut i: usize = 1;
    while i < n
        invariant
            n == ids@.len(),
            1 <= i <= n,
            out@ == joined(views(ids@.take(i as int))),
        decreases n - i,
    {
        assert(views(ids@.take(i + 1)).drop_last() == views(ids@.take(i as int)));
        out.append(",");
        out.append(ids[i].as_str());
        proof {
            reveal_strlit(",");
        }
        i = i + 1;
    }
    assert(ids@.take(n as int) == ids@);
    out
}

/// Appending text without a comma extends the field being read.
proof fn lemma_fields_acc_extend(s: Seq<char>, t: Seq<char>)
    requires
        !t.contains(','),
    ensures
        fields_acc(s + t) == (fields_acc(s).0, fields_acc(s).1 + t),
    decreases t.len(),
{
    if t.len() == 0 {
        assert(s + t == s);
        assert(fields_acc(s).1 + t == fields_acc(s).1);
    } else {
        let u = t.drop_last();
        assert((s + t).drop_last() == s + u);
        assert((s + t).last() == t.last());
        assert(t.last() != ',') by {
            assert(t[t.len() - 1] == t.last());
        }
        assert forall|c: char| u.contains(c) implies t.contains(c) by {
            let k = choose|k: int| 0 <= k < u.len() && u[k] == c;
            assert(t[k] == c);
        }
        lemma_fields_acc_extend(s, u);
        assert(fields_acc(s).1 + u + seq![t.last()] == fields_acc(s).1 + t);
    }
}

/// Joining identifiers that hold no comma with commas, then splitting the
/// result at every comma, gives the identifiers back, in their order and
/// with repetitions kept.
pub proof fn lemma_fields_of_joined(ids: Seq<Seq<char>>)
    requires
        ids.len() > 0,
        forall|i: int| 0 <= i < ids.len() ==> !(#[trigger] ids[i]).contains(','),
    ensures
        fields(joined(ids)) == ids,
{
    lemma_fields_acc_joined(ids);
    assert(ids.drop_last().push(ids.last()) == ids);
}

proof fn lemma_fields_acc_joined(ids: Seq<Seq<char>>)
    requires
        ids.len() > 0,
        forall|i: int| 0 <= i < ids.len() ==> !(#[trigger] ids[i]).contains(','),
    ensures
        fields_acc(joined(ids)) == (ids.drop_last(), ids.last()),
    decreases ids.len(),
{
    if ids.len() == 1 {
        lemma_fields_acc_extend(seq![], ids[0]);
        assert(seq![] + ids[0] == ids[0]);
        assert(ids.drop_last() == Seq::<Seq<char>>::empty());
    } else {
        let front = ids.drop_last();
        assert(forall|i: int| 0 <= i < front.len() ==> front[i] == ids[i]);
        lemma_fields_acc_joined(front);
        let a = joined(front) + seq![','];
        assert(a.drop_last() == joined(front));
        assert(fields_acc(a) == (front, Seq::<char>::empty())) by {
            assert(front.drop_last().push(front.last()) == front);
        }
        assert(!ids.last().contains(',')) by {
            assert(ids[ids.len() - 1] == ids.last());
        }
        lemma_fields_acc_extend(a, ids.last());
        assert(Seq::<char>::empty() + ids.last() == ids.last());
    }
}

} // verus!
