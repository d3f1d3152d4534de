//! The service-probe database: the records it is read into, its parsers,
//! and the rules of a block held against a response.

use crate::service::exclude::{exclusions, first_exclude, read_exclude};
use crate::service::identify::{evaluated, find_hit, find_hits, hit_view, identified};
use crate::service::pattern::{pattern_captures, regex_captures};
use crate::service::ports::{port_list, read_port_list};
use crate::service::directive::{directive_of, DirectiveView};
use crate::service::progress::{database, lemma_rejected_lines, progress, Parser};
use crate::text::{chars_of, starts_with, string_views};
use regex::Regex;
use vstd::prelude::*;

verus! {

/// The transport protocol a probe is sent over.
#[derive(Debug, Clone, Copy, PartialEq, Eq, Structural)]
pub enum ProbesProtocol {
    Tcp,
    Udp,
}

/// Why a line of the database was rejected.
#[derive(Debug, Clone, Copy, PartialEq, Eq, Structural)]
pub enum ParseErrorKind {
    /// The directive lacks a field that its grammar requires.
    MissingField,
    /// The protocol of a `Probe` line is neither `TCP` nor `UDP`.
    UnknownProtocol,
    /// A field that must be a decimal number in range is not one, or an
    /// item of a list that must name ports does not.
    BadNumber,
    /// The regular expression of a `match` or `softmatch` line does not compile.
    BadPattern,
}

/// A rejected line: its position among the lines given, and the reason.
#[derive(Debug, Clone, Copy, PartialEq, Eq, Structural)]
pub struct ParseError {
    pub line: usize,
    pub kind: ParseErrorKind,
}

/// The ports that the `Exclude` directive keeps from being probed.
#[derive(Debug, Clone)]
pub struct ExcludePorts {
    /// Excluded for both protocols.
    pub ports: Vec<u16>,
    /// Excluded for TCP only.
    pub tcp_ports: Vec<u16>,
    /// Excluded for UDP only.
    pub udp_ports: Vec<u16>,
}

/// The mathematical content of an `ExcludePorts`.
pub struct ExcludeView {
    pub ports: Seq<u16>,
    pub tcp_ports: Seq<u16>,
    pub udp_ports: Seq<u16>,
}

impl View for ExcludePorts {
    type V = ExcludeView;

    open spec fn view(&self) -> ExcludeView {
        ExcludeView { ports: self.ports@, tcp_ports: self.tcp_ports@, udp_ports: self.udp_ports@ }
    }
}

/// Reads a comma-separated list of ports and inclusive port ranges.
///
/// Each item is trimmed of white space. The result lists the ports in the
/// order written, a range expanded in rising order. The list is rejected
/// with `BadNumber` exactly when some item is neither a number that fits
/// 16 bits nor two such numbers with one hyphen between them.
pub fn ports_parser(ports: &str) -> (r: Result<Vec<u16>, ParseErrorKind>)
    ensures
        match r {
            Ok(list) => port_list(ports@) == Some(list@),
            Err(kind) => port_list(ports@) is None && kind == ParseErrorKind::BadNumber,
        },
{
    let text = chars_of(ports);
    read_port_list(text.as_slice())
}

/// Reads the `Exclude` directive of a service-probe database.
///
/// Only the first line that starts with `Exclude` counts. Its items are
/// separated by commas; each is a port or an inclusive range of ports,
/// for TCP alone behind `T:`, for UDP alone behind `U:`, and for both
/// without a prefix. Without such a line nothing is excluded. The result
/// is an error, at that line, exactly when one of its items is malformed.
pub fn nsp_exclued_parser(lines: &[String]) -> (r: Result<ExcludePorts, ParseError>)
    ensures
        match r {
            Ok(e) => exclusions(string_views(lines@)) == Ok::<ExcludeView, ParseError>(e@),
            Err(e) => exclusions(string_views(lines@)) == Err::<ExcludeView, ParseError>(e),
        },
{
    let ghost all = string_views(lines@);
    let keyword = chars_of("Exclude");
    let mut i: usize = 0;
    assert(all.skip(0) == all);
    while i < lines.len()
        invariant
            i <= lines.len(),
            all == string_views(lines@),
            keyword@ == "Exclude"@,
            first_exclude(all) == i + first_exclude(all.skip(i as int)),
        decreases lines.len() - i,
    {
        let line = chars_of(lines[i].as_str());
        assert(all.skip(i as int)[0] == lines[i as int]@);
        if starts_with(line.as_slice(), keyword.as_slice()) {
            return match read_exclude(line.as_slice()) {
                Some(e) => Ok(e),
                None => Err(ParseError { line: i, kind: ParseErrorKind::BadNumber }),
            };
        }
        assert(all.skip(i as int).drop_first() == all.skip(i + 1));
        i += 1;
    }
    assert(all.skip(lines.len() as int).len() == 0);
    Ok(ExcludePorts { ports: Vec::new(), tcp_ports: Vec::new(), udp_ports: Vec::new() })
}

/// One `match` or `softmatch` rule: the service it names, the pattern that
/// recognises the service's response, and what it tells of the version.
#[derive(Debug)]
pub struct Match {
    /// The name of the service that the pattern recognises.
    pub service: String,
    /// The pattern as it is compiled: option prefix, then the rewritten body.
    pub pattern: String,
    /// The version template that follows the pattern on the line.
    pub versioninfo: String,
    /// The compiled pattern.
    pub re: Regex,
}

/// The mathematical content of a `Match`.
pub struct MatchView {
    pub service: Seq<char>,
    pub pattern: Seq<char>,
    pub versioninfo: Seq<char>,
    /// What the compiled pattern captures in each text in which it finds a
    /// match.
    pub captures: Map<Seq<char>, Seq<Option<Seq<char>>>>,
}

impl View for Match {
    type V = MatchView;

    open spec fn view(&self) -> MatchView {
        MatchView {
            service: self.service@,
            pattern: self.pattern@,
            versioninfo: self.versioninfo@,
            captures: regex_captures(self.re),
        }
    }
}

impl Match {
    /// The compiled expression is the one that `pattern` compiles to.
    pub open spec fn wf(&self) -> bool {
        pattern_captures(self.pattern@) == Some(regex_captures(self.re))
    }
}

impl Clone for Match {
    fn clone(&self) -> (copy: Self)
        ensures
            copy@ == self@,
    {
        Match {
            service: self.service.clone(),
            pattern: self.pattern.clone(),
            versioninfo: self.versioninfo.clone(),
            re: self.re.clone(),
        }
    }
}

/// The views of a sequence of rules.
pub open spec fn match_views(rules: Seq<Match>) -> Seq<MatchView> {
    rules.map_values(|m: Match| m@)
}

/// What a `Probe` line declares.
#[derive(Debug)]
pub struct Probe {
    /// The protocol the probe is sent over.
    pub protocol: ProbesProtocol,
    /// The probe's name.
    pub probename: String,
    /// The text to send, escapes unexpanded.
    pub probestring: String,
    /// Whether the probe is barred from use as a UDP payload.
    pub no_payload: bool,
}

/// The mathematical content of a `Probe`.
pub struct ProbeView {
    pub protocol: ProbesProtocol,
    pub probename: Seq<char>,
    pub probestring: Seq<char>,
    pub no_payload: bool,
}

impl View for Probe {
    type V = ProbeView;

    open spec fn view(&self) -> ProbeView {
        ProbeView {
            protocol: self.protocol,
            probename: self.probename@,
            probestring: self.probestring@,
            no_payload: self.no_payload,
        }
    }
}

impl Clone for Probe {
    fn clone(&self) -> (copy: Self)
        ensures
            copy@ == self@,
    {
        Probe {
            protocol: self.protocol,
            probename: self.probename.clone(),
            probestring: self.probestring.clone(),
            no_payload: self.no_payload,
        }
    }
}

/// One block of the database: a probe, and what the lines that belong to
/// it say of the responses to it.
#[derive(Debug)]
pub struct ServiceProbes {
    /// The probe that the block starts with.
    pub probe: Probe,
    /// The `match` rules, in the order written.
    pub matchs: Vec<Match>,
    /// The `softmatch` rules, in the order written.
    pub softmatchs: Vec<Match>,
    /// The ports on which the services of this probe are commonly found.
    pub ports: Option<Vec<u16>>,
    /// As `ports`, for services wrapped in SSL.
    pub sslports: Option<Vec<u16>>,
    /// How long to wait for a response, in milliseconds.
    pub totalwaitms: Option<u64>,
    /// How long a connection must stay open not to count as wrapped, in milliseconds.
    pub tcpwrappedms: Option<u64>,
    /// How rarely the probe is expected to give a useful answer.
    pub rarity: Option<u64>,
    /// The probes whose rules are tried when none of this block matches.
    pub fallback: Option<Vec<String>>,
}

/// The mathematical content of a `ServiceProbes`.
pub struct ServiceProbesView {
    pub probe: ProbeView,
    pub matchs: Seq<MatchView>,
    pub softmatchs: Seq<MatchView>,
    pub ports: Option<Seq<u16>>,
    pub sslports: Option<Seq<u16>>,
    pub totalwaitms: Option<u64>,
    pub tcpwrappedms: Option<u64>,
    pub rarity: Option<u64>,
    pub fallback: Option<Seq<Seq<char>>>,
}

/// The view of an optional port list.
pub open spec fn ports_view(ports: Option<Vec<u16>>) -> Option<Seq<u16>> {
    match ports {
        Some(list) => Some(list@),
        None => None,
    }
}

/// The view of an optional list of names.
pub open spec fn names_view(names: Option<Vec<String>>) -> Option<Seq<Seq<char>>> {
    match names {
        Some(list) => Some(string_views(list@)),
        None => None,
    }
}

impl View for ServiceProbes {
    type V = ServiceProbesView;

    open spec fn view(&self) -> ServiceProbesView {
        ServiceProbesView {
            probe: self.probe@,
            matchs: match_views(self.matchs@),
            softmatchs: match_views(self.softmatchs@),
            ports: ports_view(self.ports),
            sslports: ports_view(self.sslports),
            totalwaitms: self.totalwaitms,
            tcpwrappedms: self.tcpwrappedms,
            rarity: self.rarity,
            fallback: names_view(self.fallback),
        }
    }
}

/// A copy of a list of rules.
pub fn clone_rules(rules: &Vec<Match>) -> (copy: Vec<Match>)
    ensures
        match_views(copy@) == match_views(rules@),
{
    let mut copy: Vec<Match> = Vec::new();
    let mut i: usize = 0;
    while i < rules.len()
        invariant
            i <= rules.len(),
            match_views(copy@) == match_views(rules@).take(i as int),
        decreases rules.len() - i,
    {
        let rule = rules[i].clone();
        assert(match_views(copy@.push(rule)) == match_views(copy@).push(rule@));
        copy.push(rule);
        assert(match_views(rules@).take(i + 1) == match_views(rules@).take(i as int).push(
            rules[i as int]@,
        ));
        i += 1;
    }
    assert(match_views(rules@).take(rules.len() as int) == match_views(rules@));
    copy
}

/// A copy of a list of names.
pub fn clone_names(names: &Vec<String>) -> (copy: Vec<String>)
    ensures
        string_views(copy@) == string_views(names@),
{
    let mut copy: Vec<String> = Vec::new();
    let mut i: usize = 0;
    while i < names.len()
        invariant
            i <= names.len(),
            string_views(copy@) == string_views(names@).take(i as int),
        decreases names.len() - i,
    {
        let name = names[i].clone();
        assert(string_views(copy@.push(name)) == string_views(copy@).push(name@));
        assert(string_views(names@).take(i + 1) == string_views(names@).take(i as int).push(
            names[i as int]@,
        ));
        copy.push(name);
        i += 1;
    }
    assert(string_views(names@).take(names.len() as int) == string_views(names@));
    copy
}

impl Clone for ServiceProbes {
    fn clone(&self) -> (copy: Self)
        ensures
            copy@ == self@,
    {
        ServiceProbes {
            probe: self.probe.clone(),
            matchs: clone_rules(&self.matchs),
            softmatchs: clone_rules(&self.softmatchs),
            ports: match &self.ports {
                Some(list) => Some(list.clone()),
                None => None,
            },
            sslports: match &self.sslports {
                Some(list) => Some(list.clone()),
                None => None,
            },
            totalwaitms: self.totalwaitms,
            tcpwrappedms: self.tcpwrappedms,
            rarity: self.rarity,
            fallback: match &self.fallback {
                Some(list) => Some(clone_names(list)),
                None => None,
            },
        }
    }
}

/// The views of a sequence of blocks.
pub open spec fn probes_views(blocks: Seq<ServiceProbes>) -> Seq<ServiceProbesView> {
    blocks.map_values(|b: ServiceProbes| b@)
}

impl ServiceProbes {
    /// Holds the rules of the block against a response.
    ///
    /// Returns every `match` rule whose pattern finds a match in the
    /// response, in the order written; where no `match` rule does, every
    /// such `softmatch` rule. Each rule is returned with what its pattern
    /// captured in the response put into its version template.
    pub fn check(&self, recv_str: &str) -> (found: Vec<Match>)
        ensures
            match_views(found@) == evaluated(self@, recv_str@),
    {
        let hard = find_hits(&self.matchs, recv_str);
        if hard.len() > 0 {
            hard
        } else {
            find_hits(&self.softmatchs, recv_str)
        }
    }

    /// The rule that identifies the response: the first `match` rule whose
    /// pattern finds a match in it, or, where no `match` rule does, the first
    /// such `softmatch` rule; with what the pattern captured in the response
    /// put into the version template.
    pub fn identify(&self, recv_str: &str) -> (hit: Option<Match>)
        ensures
            hit_view(hit) == identified(self@, recv_str@),
    {
        match find_hit(&self.matchs, recv_str) {
            Some(m) => Some(m),
            None => find_hit(&self.softmatchs, recv_str),
        }
    }
}

/// The view of what `nsp_parser` returns.
pub open spec fn outcome_view(r: (Vec<ServiceProbes>, Vec<ParseError>)) -> (
    Seq<ServiceProbesView>,
    Seq<ParseError>,
) {
    (probes_views(r.0@), r.1@)
}

/// Reads a service-probe database.
///
/// A malformed line is recorded and skipped; the rest is read as if the
/// line were not there. Returns the blocks that the well-formed lines
/// declare, one for each well-formed `Probe` line, and the record of the
/// malformed lines: each with its position and the reason, in the order of
/// the lines.
pub fn nsp_parser(lines: &[String]) -> (r: (Vec<ServiceProbes>, Vec<ParseError>))
    ensures
        outcome_view(r) == database(string_views(lines@)),
        forall|j: int|
            0 <= j < r.1@.len() ==> (#[trigger] r.1@[j]).line < lines@.len() && directive_of(
                lines@[r.1@[j].line as int]@,
            ) == Err::<DirectiveView, ParseErrorKind>(r.1@[j].kind),
        forall|i: int|
            0 <= i < lines@.len() && (#[trigger] directive_of(lines@[i]@)) is Err ==> exists|
                j: int,
            | 0 <= j < r.1@.len() && r.1@[j].line == i,
        forall|j: int, k: int| 0 <= j < k < r.1@.len() ==> r.1@[j].line < r.1@[k].line,
{
    let ghost all = string_views(lines@);
    proof {
        assert(all.len() == lines.len());
        assert(forall|i: int| 0 <= i < lines@.len() ==> all[i] == lines@[i]@);
        lemma_rejected_lines(all);
        let rejected = progress(all).rejected;
        assert forall|i: int|
            0 <= i < lines@.len() && (#[trigger] directive_of(lines@[i]@)) is Err implies exists|
            j: int,
        | 0 <= j < rejected.len() && rejected[j].line == i by {
            assert(directive_of(all[i]) is Err);
        }
    }
    let mut parser = Parser::new();
    let mut i: usize = 0;
    assert(all.take(0).len() == 0);
    while i < lines.len()
        invariant
            i <= lines.len(),
            all == string_views(lines@),
            parser@ == progress(all.take(i as int)),
        decreases lines.len() - i,
    {
        proof {
            let next = all.take(i + 1);
            assert(next.drop_last() == all.take(i as int));
            assert(next.last() == lines[i as int]@);
        }
        parser = parser.feed(i, lines[i].as_str());
        i += 1;
    }
    assert(all.take(lines.len() as int) == all);
    parser.finish()
}

} // verus!
