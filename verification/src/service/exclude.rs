//! The grammar of the `Exclude` directive.

use crate::service::dbparser::{ExcludePorts, ExcludeView, ParseError, ParseErrorKind};
use crate::service::ports::{has_char, item_ports, push_item};
use crate::text::{join_from, rest_from, split, split_on, trim, trimmed, views};
use vstd::prelude::*;

verus! {

/// No ports excluded.
pub open spec fn no_exclusions() -> ExcludeView {
    ExcludeView { ports: Seq::empty(), tcp_ports: Seq::empty(), udp_ports: Seq::empty() }
}

/// The exclusions `acc` with one more item of the `Exclude` directive.
///
/// An item without a colon names ports excluded for both protocols. An
/// item with one colon names ports for the protocol before the colon: `T`
/// for TCP, `U` for UDP. `None` where the ports are malformed, the item
/// holds more than one colon, or what stands before the colon is neither
/// `T` nor `U`.
pub open spec fn exclude_add(acc: ExcludeView, item: Seq<char>) -> Option<ExcludeView> {
    if item.contains(':') {
        let parts = split_on(item, ':');
        if parts.len() != 2 {
            None
        } else if parts[0] == seq!['T'] {
            match item_ports(parts[1]) {
                Some(list) => Some(ExcludeView { tcp_ports: acc.tcp_ports + list, ..acc }),
                None => None,
            }
        } else if parts[0] == seq!['U'] {
            match item_ports(parts[1]) {
                Some(list) => Some(ExcludeView { udp_ports: acc.udp_ports + list, ..acc }),
                None => None,
            }
        } else {
            None
        }
    } else {
        match item_ports(item) {
            Some(list) => Some(ExcludeView { ports: acc.ports + list, ..acc }),
            None => None,
        }
    }
}

/// The exclusions that a sequence of items declares, each item trimmed;
/// `None` where any item is malformed.
pub open spec fn exclude_items(items: Seq<Seq<char>>) -> Option<ExcludeView>
    decreases items.len(),
{
    if items.len() == 0 {
        Some(no_exclusions())
    } else {
        match exclude_items(items.drop_last()) {
            Some(acc) => exclude_add(acc, trimmed(items.last())),
            None => None,
        }
    }
}

/// The exclusions that an `Exclude` line declares: the comma-separated
/// items after the first space.
pub open spec fn exclude_of(line: Seq<char>) -> Option<ExcludeView> {
    exclude_items(split_on(rest_from(line, 1), ','))
}

/// Whether a line is the `Exclude` directive.
pub open spec fn is_exclude(line: Seq<char>) -> bool {
    "Exclude"@.is_prefix_of(line)
}

/// The position of the first `Exclude` line, or the number of lines where
/// there is none.
pub open spec fn first_exclude(lines: Seq<Seq<char>>) -> int
    decreases lines.len(),
{
    if lines.len() == 0 {
        0
    } else if is_exclude(lines[0]) {
        0
    } else {
        1 + first_exclude(lines.drop_first())
    }
}

/// `first_exclude` is the least position of an `Exclude` line.
pub proof fn lemma_first_exclude(lines: Seq<Seq<char>>)
    ensures
        0 <= first_exclude(lines) <= lines.len(),
        forall|j: int| 0 <= j < first_exclude(lines) ==> !is_exclude(lines[j]),
        first_exclude(lines) < lines.len() ==> is_exclude(lines[first_exclude(lines)]),
    decreases lines.len(),
{
    if lines.len() > 0 && !is_exclude(lines[0]) {
        lemma_first_exclude(lines.drop_first());
        assert forall|j: int| 0 <= j < first_exclude(lines) implies !is_exclude(lines[j]) by {
            if j > 0 {
                assert(lines[j] == lines.drop_first()[j - 1]);
            }
        }
    }
}

/// What the first `Exclude` line of `lines` declares: nothing where there
/// is no such line, and an error at that line where it is malformed. Later
/// `Exclude` lines are not read.
pub open spec fn exclusions(lines: Seq<Seq<char>>) -> Result<ExcludeView, ParseError> {
    let k = first_exclude(lines);
    if k >= lines.len() {
        Ok(no_exclusions())
    } else {
        match exclude_of(lines[k]) {
            Some(e) => Ok(e),
            None => Err(ParseError { line: k as usize, kind: ParseErrorKind::BadNumber }),
        }
    }
}

/// Once a prefix of the items is rejected, so is the whole.
pub proof fn lemma_exclude_items_none(items: Seq<Seq<char>>, k: int)
    requires
        0 <= k <= items.len(),
        exclude_items(items.take(k)) is None,
    ensures
        exclude_items(items) is None,
    decreases items.len(),
{
    if k == items.len() {
        assert(items.take(k) == items);
    } else {
        assert(items.drop_last().take(k) == items.take(k));
        lemma_exclude_items_none(items.drop_last(), k);
    }
}

/// Adds one item of the `Exclude` directive to `acc`, or reports that the
/// item is malformed.
pub fn exclude_item(acc: ExcludePorts, item: &[char]) -> (r: Option<ExcludePorts>)
    ensures
        match r {
            Some(next) => exclude_add(acc@, item@) == Some(next@),
            None => exclude_add(acc@, item@) is None,
        },
{
    let ExcludePorts { ports, tcp_ports, udp_ports } = acc;
    if has_char(item, ':') {
        let parts = split(item, ':');
        assert(views(parts@).len() == parts.len());
        if parts.len() != 2 {
            return None;
        }
        proof {
            assert(views(parts@)[0] == parts[0]@);
            assert(views(parts@)[1] == parts[1]@);
        }
        let scope = parts[0].as_slice();
        if scope.len() == 1 && scope[0] == 'T' {
            assert(scope@ == seq!['T']);
            let mut tcp_ports = tcp_ports;
            if push_item(&mut tcp_ports, parts[1].as_slice()) {
                Some(ExcludePorts { ports, tcp_ports, udp_ports })
            } else {
                None
            }
        } else if scope.len() == 1 && scope[0] == 'U' {
            assert(scope@ == seq!['U']);
            let mut udp_ports = udp_ports;
            if push_item(&mut udp_ports, parts[1].as_slice()) {
                Some(ExcludePorts { ports, tcp_ports, udp_ports })
            } else {
                None
            }
        } else {
            assert(scope@ != seq!['T']) by {
                if scope@.len() == 1 {
                    assert(scope@[0] != seq!['T'][0]);
                }
            }
            assert(scope@ != seq!['U']) by {
                if scope@.len() == 1 {
                    assert(scope@[0] != seq!['U'][0]);
                }
            }
            None
        }
    } else {
        let mut ports = ports;
        if push_item(&mut ports, item) {
            Some(ExcludePorts { ports, tcp_ports, udp_ports })
        } else {
            None
        }
    }
}

/// Computes `exclude_of`.
pub fn read_exclude(line: &[char]) -> (r: Option<ExcludePorts>)
    ensures
        match r {
            Some(e) => exclude_of(line@) == Some(e@),
            None => exclude_of(line@) is None,
        },
{
    let w = split(line, ' ');
    let rest = join_from(&w, 1, ' ');
    let items = split(rest.as_slice(), ',');
    let ghost all = views(items@);
    let mut acc = ExcludePorts { ports: Vec::new(), tcp_ports: Vec::new(), udp_ports: Vec::new() };
    let mut i: usize = 0;
    assert(all.take(0).len() == 0);
    while i < items.len()
        invariant
            i <= items.len(),
            all == views(items@),
            exclude_of(line@) == exclude_items(all),
            exclude_items(all.take(i as int)) == Some(acc@),
        decreases items.len() - i,
    {
        let item = trim(items[i].as_slice());
        proof {
            let next = all.take(i + 1);
            assert(next.drop_last() == all.take(i as int));
            assert(next.last() == items[i as int]@);
        }
        match exclude_item(acc, item.as_slice()) {
            Some(next) => {
                acc = next;
            },
            None => {
                proof {
                    lemma_exclude_items_none(all, i + 1);
                }
                return None;
            },
        }
        i += 1;
    }
    assert(all.take(items.len() as int) == all);
    Some(acc)
}

} // verus!
