//! The version that a rule tells of: its template, with what the pattern
//! captured in the response put in.

use crate::service::dbparser::{Match, MatchView};
use crate::service::pattern::{captures, groups_view};
use crate::text::{append, chars_of, string_of};
use vstd::prelude::*;

verus! {

/// The text of the `n`-th group; nothing where there is no such group or
/// it took no part in the match.
pub open spec fn group_text(groups: Seq<Option<Seq<char>>>, n: int) -> Seq<char> {
    if 0 <= n < groups.len() && groups[n] is Some {
        groups[n]->Some_0
    } else {
        Seq::empty()
    }
}

/// A template with each `$1` to `$9` replaced by the text of the group
/// with that number; any other character stands for itself.
pub open spec fn expanded(template: Seq<char>, groups: Seq<Option<Seq<char>>>) -> Seq<char>
    decreases template.len(),
{
    if template.len() == 0 {
        Seq::empty()
    } else if template[0] == '$' && template.len() >= 2 && '1' <= template[1] <= '9' {
        group_text(groups, template[1] as u32 - '0' as u32) + expanded(template.skip(2), groups)
    } else {
        seq![template[0]] + expanded(template.drop_first(), groups)
    }
}

/// Computes `expanded`.
pub fn expand(template: &str, groups: &Vec<Option<String>>) -> (text: String)
    ensures
        text@ == expanded(template@, groups_view(groups@)),
{
    let t = chars_of(template);
    let ghost g = groups_view(groups@);
    let mut out: Vec<char> = Vec::new();
    let mut i: usize = 0;
    assert(t@.skip(0) == t@);
    while i < t.len()
        invariant
            i <= t.len(),
            t@ == template@,
            g == groups_view(groups@),
            expanded(t@, g) == out@ + expanded(t@.skip(i as int), g),
        decreases t.len() - i,
    {
        let ghost rest = t@.skip(i as int);
        assert(rest[0] == t@[i as int]);
        if t[i] == '$' && t.len() - i >= 2 && '1' <= t[i + 1] && t[i + 1] <= '9' {
            assert(rest[1] == t@[i + 1]);
            assert(rest.skip(2) == t@.skip(i + 2));
            let n: usize = (t[i + 1] as u32 - '0' as u32) as usize;
            if n < groups.len() {
                assert(g[n as int] == match groups@[n as int] {
                    Some(s) => Some(s@),
                    None => None,
                });
                match &groups[n] {
                    Some(s) => {
                        append(&mut out, chars_of(s.as_str()).as_slice());
                    },
                    None => {},
                }
            }
            i += 2;
        } else {
            proof {
                if rest.len() >= 2 {
                    assert(rest[1] == t@[i + 1]);
                }
                assert(rest.drop_first() == t@.skip(i + 1));
            }
            out.push(t[i]);
            i += 1;
        }
    }
    assert(t@.skip(t.len() as int).len() == 0);
    string_of(out.as_slice())
}

/// A rule as it is told of a text: the rule, with what its pattern
/// captures in the text put into its version template.
pub open spec fn told(rule: MatchView, text: Seq<char>) -> MatchView {
    MatchView { versioninfo: expanded(rule.versioninfo, rule.captures[text]), ..rule }
}

/// Tells a rule of a response, given what the rule's pattern captured in
/// it: a copy of the rule, with the captured texts put into the version
/// template.
pub fn tell(rule: &Match, groups: &Vec<Option<String>>) -> (hit: Match)
    ensures
        hit@ == (MatchView {
            versioninfo: expanded(rule.versioninfo@, groups_view(groups@)),
            ..rule@
        }),
{
    Match {
        service: rule.service.clone(),
        pattern: rule.pattern.clone(),
        versioninfo: expand(rule.versioninfo.as_str(), groups),
        re: rule.re.clone(),
    }
}

impl Match {
    /// The rule as it is told of a response; none where the pattern finds
    /// no match in the response.
    pub fn hit(&self, recv_str: &str) -> (hit: Option<Match>)
        ensures
            match hit {
                Some(m) => self@.captures.contains_key(recv_str@) && m@ == told(
                    self@,
                    recv_str@,
                ),
                None => !self@.captures.contains_key(recv_str@),
            },
    {
        if !self.re.is_match(recv_str) {
            return None;
        }
        match captures(&self.re, recv_str) {
            Some(groups) => Some(tell(self, &groups)),
            None => None,
        }
    }

    /// The version that the rule tells of a response: its template with
    /// what the pattern captured in the response put in; none where the
    /// pattern finds no match in the response.
    pub fn version(&self, recv_str: &str) -> (v: Option<String>)
        ensures
            match v {
                Some(text) => self@.captures.contains_key(recv_str@) && text@ == told(
                    self@,
                    recv_str@,
                ).versioninfo,
                None => !self@.captures.contains_key(recv_str@),
            },
    {
        match captures(&self.re, recv_str) {
            Some(groups) => Some(expand(self.versioninfo.as_str(), &groups)),
            None => None,
        }
    }
}

} // verus!
