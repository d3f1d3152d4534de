//! Port lists: single ports and inclusive ranges between commas.

use crate::service::dbparser::ParseErrorKind;
use crate::text::{
    find_char, lemma_find_char, parse_decimal, parse_number, split, split_on, trim, trimmed,
    views,
};
use vstd::prelude::*;

verus! {

/// The 16-bit number that `s` writes, if any.
pub open spec fn parse_u16(s: Seq<char>) -> Option<u16> {
    match parse_decimal(s, 0xffff) {
        Some(n) => Some(n as u16),
        None => None,
    }
}

/// The 64-bit number that `s` writes, if any.
pub open spec fn parse_u64(s: Seq<char>) -> Option<u64> {
    match parse_decimal(s, 0xffff_ffff_ffff_ffff) {
        Some(n) => Some(n as u64),
        None => None,
    }
}

/// The ports from `a` to `b`, both included, in rising order; none if `a > b`.
pub open spec fn port_span(a: u16, b: u16) -> Seq<u16> {
    if a <= b {
        Seq::new((b - a + 1) as nat, |i: int| (a + i) as u16)
    } else {
        Seq::empty()
    }
}

/// The ports that one item of a port list names: a single port, or, where
/// the item holds one hyphen, the span between the numbers before and
/// after it. `None` where a number is malformed or the item holds more
/// than one hyphen.
pub open spec fn item_ports(item: Seq<char>) -> Option<Seq<u16>> {
    if item.contains('-') {
        let ends = split_on(item, '-');
        if ends.len() == 2 {
            match (parse_u16(ends[0]), parse_u16(ends[1])) {
                (Some(a), Some(b)) => Some(port_span(a, b)),
                _ => None,
            }
        } else {
            None
        }
    } else {
        match parse_u16(item) {
            Some(p) => Some(seq![p]),
            None => None,
        }
    }
}

/// The ports that a sequence of items names, in order; `None` where any
/// item, once trimmed, is malformed.
pub open spec fn items_ports(items: Seq<Seq<char>>) -> Option<Seq<u16>>
    decreases items.len(),
{
    if items.len() == 0 {
        Some(Seq::empty())
    } else {
        match (items_ports(items.drop_last()), item_ports(trimmed(items.last()))) {
            (Some(before), Some(last)) => Some(before + last),
            _ => None,
        }
    }
}

/// The ports that a comma-separated port list names.
pub open spec fn port_list(text: Seq<char>) -> Option<Seq<u16>> {
    items_ports(split_on(text, ','))
}

/// Whether `s` holds the character `c`.
pub fn has_char(s: &[char], c: char) -> (r: bool)
    ensures
        r == s@.contains(c),
{
    let mut i: usize = 0;
    while i < s.len()
        invariant
            i <= s.len(),
            forall|j: int| 0 <= j < i ==> s@[j] != c,
        decreases s.len() - i,
    {
        if s[i] == c {
            return true;
        }
        i += 1;
    }
    false
}

/// Computes `parse_u16`.
pub fn read_u16(s: &[char]) -> (r: Option<u16>)
    ensures
        r == parse_u16(s@),
{
    match parse_number(s, 0xffff) {
        Some(n) => Some(n as u16),
        None => None,
    }
}

/// Computes `parse_u64`.
pub fn read_u64(s: &[char]) -> (r: Option<u64>)
    ensures
        r == parse_u64(s@),
{
    parse_number(s, 0xffff_ffff_ffff_ffff)
}

/// Appends the ports from `a` to `b` to `out`.
pub fn push_span(out: &mut Vec<u16>, a: u16, b: u16)
    ensures
        final(out)@ == old(out)@ + port_span(a, b),
{
    if a > b {
        return ;
    }
    let mut p: u16 = a;
    loop
        invariant_except_break
            a <= p <= b,
            out@ == old(out)@ + port_span(a, b).take(p - a),
        ensures
            out@ == old(out)@ + port_span(a, b),
        decreases b - p,
    {
        out.push(p);
        assert(port_span(a, b).take(p - a + 1) == port_span(a, b).take(p - a).push(p));
        if p == b {
            assert(port_span(a, b).take(p - a + 1) == port_span(a, b));
            break ;
        }
        p += 1;
    }
}

/// Appends the ports that `item` names to `out`, or reports that `item` is
/// malformed and leaves `out` as it was.
pub fn push_item(out: &mut Vec<u16>, item: &[char]) -> (ok: bool)
    ensures
        ok == item_ports(item@) is Some,
        ok ==> final(out)@ == old(out)@ + item_ports(item@)->Some_0,
        !ok ==> final(out)@ == old(out)@,
{
    if has_char(item, '-') {
        let ends = split(item, '-');
        assert(views(ends@).len() == ends.len());
        if ends.len() != 2 {
            return false;
        }
        proof {
            assert(views(ends@)[0] == ends[0]@);
            assert(views(ends@)[1] == ends[1]@);
        }
        match (read_u16(ends[0].as_slice()), read_u16(ends[1].as_slice())) {
            (Some(a), Some(b)) => {
                push_span(out, a, b);
                true
            },
            _ => false,
        }
    } else {
        match read_u16(item) {
            Some(p) => {
                out.push(p);
                assert(out@ == old(out)@ + seq![p]);
                true
            },
            None => false,
        }
    }
}

/// `ports_parser` on characters.
pub fn read_port_list(text: &[char]) -> (r: Result<Vec<u16>, ParseErrorKind>)
    ensures
        match r {
            Ok(list) => port_list(text@) == Some(list@),
            Err(kind) => port_list(text@) is None && kind == ParseErrorKind::BadNumber,
        },
{
    let items = split(text, ',');
    let ghost all = views(items@);
    let mut out: Vec<u16> = Vec::new();
    let mut i: usize = 0;
    while i < items.len()
        invariant
            i <= items.len(),
            all == views(items@),
            all == split_on(text@, ','),
            items_ports(all.take(i as int)) == Some(out@),
        decreases items.len() - i,
    {
        let item = trim(items[i].as_slice());
        proof {
            let next = all.take(i + 1);
            assert(next.drop_last() == all.take(i as int));
            assert(next.last() == items[i as int]@);
        }
        if !push_item(&mut out, item.as_slice()) {
            proof {
                lemma_items_ports_none(all, i + 1);
            }
            return Err(ParseErrorKind::BadNumber);
        }
        i += 1;
    }
    assert(all.take(items.len() as int) == all);
    Ok(out)
}

/// Once a prefix of the items is rejected, so is the whole.
pub proof fn lemma_items_ports_none(items: Seq<Seq<char>>, k: int)
    requires
        0 <= k <= items.len(),
        items_ports(items.take(k)) is None,
    ensures
        items_ports(items) is None,
    decreases items.len(),
{
    if k == items.len() {
        assert(items.take(k) == items);
    } else {
        assert(items.drop_last().take(k) == items.take(k));
        lemma_items_ports_none(items.drop_last(), k);
    }
}

} // verus!
