//! The evaluation of a response against the rules of the database.

use crate::service::dbparser::{
    match_views, probes_views, Match, MatchView, ServiceProbes, ServiceProbesView,
};
use crate::service::version::told;
use crate::text::{string_of, string_views};
use vstd::prelude::*;

verus! {

/// The text of a response: each byte as the character with that number,
/// so that no byte is lost or replaced.
pub open spec fn response_text(bytes: Seq<u8>) -> Seq<char> {
    Seq::new(bytes.len(), |i: int| bytes[i] as char)
}

/// Decodes a response into the text that the rules are held against.
pub fn decode_response(bytes: &[u8]) -> (text: String)
    ensures
        text@ == response_text(bytes@),
{
    let mut chars: Vec<char> = Vec::new();
    let mut i: usize = 0;
    while i < bytes.len()
        invariant
            i <= bytes.len(),
            chars@ == response_text(bytes@).take(i as int),
        decreases bytes.len() - i,
    {
        chars.push(bytes[i] as char);
        i += 1;
    }
    assert(response_text(bytes@).take(bytes.len() as int) == response_text(bytes@));
    string_of(chars.as_slice())
}


/// The first of `rules` whose pattern finds a match in `text`, as it is
/// told of `text`.
pub open spec fn first_hit(rules: Seq<MatchView>, text: Seq<char>) -> Option<MatchView>
    decreases rules.len(),
{
    if rules.len() == 0 {
        None
    } else if rules[0].captures.contains_key(text) {
        Some(told(rules[0], text))
    } else {
        first_hit(rules.drop_first(), text)
    }
}

/// Those of `rules` whose pattern finds a match in `text`, in order, each
/// as it is told of `text`.
pub open spec fn hits(rules: Seq<MatchView>, text: Seq<char>) -> Seq<MatchView>
    decreases rules.len(),
{
    if rules.len() == 0 {
        Seq::empty()
    } else if rules.last().captures.contains_key(text) {
        hits(rules.drop_last(), text).push(told(rules.last(), text))
    } else {
        hits(rules.drop_last(), text)
    }
}

/// What a block makes of `text`: the hits among its `match` rules, and,
/// where there is none, the hits among its `softmatch` rules.
pub open spec fn evaluated(block: ServiceProbesView, text: Seq<char>) -> Seq<MatchView> {
    if hits(block.matchs, text).len() > 0 {
        hits(block.matchs, text)
    } else {
        hits(block.softmatchs, text)
    }
}

/// The view of an optional rule.
pub open spec fn hit_view(hit: Option<Match>) -> Option<MatchView> {
    match hit {
        Some(m) => Some(m@),
        None => None,
    }
}

/// The first of `rules` whose pattern finds a match in `text`, told of
/// `text`.
pub fn find_hit(rules: &Vec<Match>, text: &str) -> (hit: Option<Match>)
    ensures
        hit_view(hit) == first_hit(match_views(rules@), text@),
{
    let ghost all = match_views(rules@);
    let mut i: usize = 0;
    assert(all.skip(0) == all);
    while i < rules.len()
        invariant
            i <= rules.len(),
            all == match_views(rules@),
            first_hit(all, text@) == first_hit(all.skip(i as int), text@),
        decreases rules.len() - i,
    {
        assert(all.skip(i as int)[0] == rules[i as int]@);
        match rules[i].hit(text) {
            Some(m) => {
                return Some(m);
            },
            None => {},
        }
        assert(all.skip(i as int).drop_first() == all.skip(i + 1));
        i += 1;
    }
    None
}

/// Those of `rules` whose pattern finds a match in `text`, in order, each
/// told of `text`.
pub fn find_hits(rules: &Vec<Match>, text: &str) -> (found: Vec<Match>)
    ensures
        match_views(found@) == hits(match_views(rules@), text@),
{
    let ghost all = match_views(rules@);
    let mut found: Vec<Match> = Vec::new();
    let mut i: usize = 0;
    assert(all.take(0).len() == 0);
    assert(match_views(found@) == Seq::<MatchView>::empty());
    while i < rules.len()
        invariant
            i <= rules.len(),
            all == match_views(rules@),
            match_views(found@) == hits(all.take(i as int), text@),
        decreases rules.len() - i,
    {
        proof {
            let next = all.take(i + 1);
            assert(next.drop_last() == all.take(i as int));
            assert(next.last() == rules[i as int]@);
        }
        match rules[i].hit(text) {
            Some(m) => {
                assert(match_views(found@.push(m)) == match_views(found@).push(m@));
                found.push(m);
            },
            None => {},
        }
        i += 1;
    }
    assert(all.take(rules.len() as int) == all);
    found
}

/// The rule of `block` that identifies `text`: a hard match before any
/// soft one, told of `text`.
pub open spec fn identified(block: ServiceProbesView, text: Seq<char>) -> Option<MatchView> {
    match first_hit(block.matchs, text) {
        Some(m) => Some(m),
        None => first_hit(block.softmatchs, text),
    }
}

/// The first of the hits is the first hit.
pub proof fn lemma_first_of_hits(rules: Seq<MatchView>, text: Seq<char>)
    ensures
        hits(rules, text).len() > 0 <==> first_hit(rules, text) is Some,
        hits(rules, text).len() > 0 ==> first_hit(rules, text) == Some(hits(rules, text)[0]),
        hits(rules, text).len() <= rules.len(),
    decreases rules.len(),
{
    if rules.len() > 0 {
        let before = rules.drop_last();
        lemma_first_of_hits(before, text);
        lemma_first_hit_grows(rules, text);
    }
}

/// The first hit among rules is the first hit among all but the last of
/// them, where there is one, and the last rule otherwise.
pub proof fn lemma_first_hit_grows(rules: Seq<MatchView>, text: Seq<char>)
    requires
        rules.len() > 0,
    ensures
        first_hit(rules, text) == match first_hit(rules.drop_last(), text) {
            Some(m) => Some(m),
            None => if rules.last().captures.contains_key(text) {
                Some(told(rules.last(), text))
            } else {
                None
            },
        },
    decreases rules.len(),
{
    let front = rules.drop_last();
    let back = rules.drop_first();
    if rules.len() == 1 {
        assert(front.len() == 0);
        assert(back.len() == 0);
        assert(rules[0] == rules.last());
        assert(first_hit(front, text) is None);
        assert(first_hit(back, text) is None);
    } else {
        assert(front[0] == rules[0]);
        assert(back.last() == rules.last());
        assert(back.drop_last() == front.drop_first());
        if !rules[0].captures.contains_key(text) {
            lemma_first_hit_grows(back, text);
            assert(first_hit(rules, text) == first_hit(back, text));
            assert(first_hit(front, text) == first_hit(front.drop_first(), text));
        }
    }
}

/// The rule that identifies a response is the first of what the block
/// makes of it.
pub proof fn lemma_identified_is_first(block: ServiceProbesView, text: Seq<char>)
    ensures
        identified(block, text) is Some <==> evaluated(block, text).len() > 0,
        identified(block, text) is Some ==> identified(block, text) == Some(
            evaluated(block, text)[0],
        ),
{
    lemma_first_of_hits(block.matchs, text);
    lemma_first_of_hits(block.softmatchs, text);
}

/// The position of the first block of `db` whose probe has the name
/// `name`, or the length of `db` where there is none.
pub open spec fn block_named(db: Seq<ServiceProbesView>, name: Seq<char>) -> int
    decreases db.len(),
{
    if db.len() == 0 {
        0
    } else if db[0].probe.probename == name {
        0
    } else {
        1 + block_named(db.drop_first(), name)
    }
}

/// The rule by which the first of the blocks named in `names`, in the
/// order listed, identifies `text`; a name that no block has is passed
/// over.
pub open spec fn fallback_hit(db: Seq<ServiceProbesView>, names: Seq<Seq<char>>, text: Seq<char>)
    -> Option<MatchView>
    decreases names.len(),
{
    if names.len() == 0 {
        None
    } else {
        let k = block_named(db, names[0]);
        if 0 <= k < db.len() && identified(db[k], text) is Some {
            identified(db[k], text)
        } else {
            fallback_hit(db, names.drop_first(), text)
        }
    }
}

/// The rule that identifies `text` as the response to the probe of the
/// `index`-th block: a rule of that block, or, where it has none that
/// matches, a rule of the blocks that it names as fallbacks. None where
/// the database has no such block.
pub open spec fn identified_in(db: Seq<ServiceProbesView>, index: int, text: Seq<char>) -> Option<
    MatchView,
> {
    if 0 <= index < db.len() {
        match identified(db[index], text) {
            Some(m) => Some(m),
            None => match db[index].fallback {
                Some(names) => fallback_hit(db, names, text),
                None => None,
            },
        }
    } else {
        None
    }
}

/// Computes `block_named`.
pub fn find_block(db: &[ServiceProbes], name: &String) -> (k: usize)
    ensures
        k == block_named(probes_views(db@), name@),
        k <= db.len(),
{
    let ghost all = probes_views(db@);
    let mut k: usize = 0;
    assert(all.skip(0) == all);
    while k < db.len()
        invariant
            k <= db.len(),
            all == probes_views(db@),
            block_named(all, name@) == k + block_named(all.skip(k as int), name@),
        decreases db.len() - k,
    {
        assert(all.skip(k as int)[0] == db[k as int]@);
        if db[k].probe.probename == *name {
            return k;
        }
        assert(all.skip(k as int).drop_first() == all.skip(k + 1));
        k += 1;
    }
    k
}

/// Identifies the response to the probe of the `index`-th block of a
/// database: by the rules of that block, a hard match before a soft one,
/// and then by the blocks that it names as fallbacks, in the order listed.
pub fn identify_in(db: &[ServiceProbes], index: usize, recv_str: &str) -> (hit: Option<Match>)
    ensures
        hit_view(hit) == identified_in(probes_views(db@), index as int, recv_str@),
{
    if index >= db.len() {
        return None;
    }
    let ghost all = probes_views(db@);
    assert(all[index as int] == db[index as int]@);
    match db[index].identify(recv_str) {
        Some(m) => return Some(m),
        None => {},
    }
    match &db[index].fallback {
        Some(names) => {
            let ghost listed = string_views(names@);
            let mut i: usize = 0;
            assert(listed.skip(0) == listed);
            while i < names.len()
                invariant
                    i <= names.len(),
                    index < db.len(),
                    all == probes_views(db@),
                    listed == string_views(names@),
                    identified(all[index as int], recv_str@) is None,
                    all[index as int].fallback == Some(listed),
                    fallback_hit(all, listed, recv_str@) == fallback_hit(
                        all,
                        listed.skip(i as int),
                        recv_str@,
                    ),
                decreases names.len() - i,
            {
                assert(listed.skip(i as int)[0] == names[i as int]@);
                let k = find_block(db, &names[i]);
                if k < db.len() {
                    assert(all[k as int] == db[k as int]@);
                    match db[k].identify(recv_str) {
                        Some(m) => return Some(m),
                        None => {},
                    }
                }
                assert(listed.skip(i as int).drop_first() == listed.skip(i + 1));
                i += 1;
            }
            None
        },
        None => None,
    }
}

} // verus!
