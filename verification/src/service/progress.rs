//! The reading of the database as a fold over its lines, and what holds
//! of its result.

use crate::service::dbparser::{
    match_views, names_view, outcome_view, ports_view, probes_views, Match, MatchView,
    ParseError, ParseErrorKind, Probe, ProbeView, ServiceProbes, ServiceProbesView,
};
use crate::service::directive::{directive_of, parse_directive, Directive, DirectiveView};
use crate::service::pattern::pattern_captures;
use crate::text::string_views;
use vstd::prelude::*;

verus! {

/// How far the reading of a database has come: the blocks that are
/// closed, the probe of the open block if one has begun, what the lines
/// since then have declared, and the lines rejected so far.
pub struct Progress {
    pub finished: Seq<ServiceProbesView>,
    pub probe: Option<ProbeView>,
    pub matchs: Seq<MatchView>,
    pub softmatchs: Seq<MatchView>,
    pub ports: Option<Seq<u16>>,
    pub sslports: Option<Seq<u16>>,
    pub totalwaitms: Option<u64>,
    pub tcpwrappedms: Option<u64>,
    pub rarity: Option<u64>,
    pub fallback: Option<Seq<Seq<char>>>,
    pub rejected: Seq<ParseError>,
}

/// Before the first line.
pub open spec fn start() -> Progress {
    Progress {
        finished: Seq::empty(),
        probe: None,
        matchs: Seq::empty(),
        softmatchs: Seq::empty(),
        ports: None,
        sslports: None,
        totalwaitms: None,
        tcpwrappedms: None,
        rarity: None,
        fallback: None,
        rejected: Seq::empty(),
    }
}

/// The open block, closed under `probe`.
pub open spec fn block_of(p: Progress, probe: ProbeView) -> ServiceProbesView {
    ServiceProbesView {
        probe,
        matchs: p.matchs,
        softmatchs: p.softmatchs,
        ports: p.ports,
        sslports: p.sslports,
        totalwaitms: p.totalwaitms,
        tcpwrappedms: p.tcpwrappedms,
        rarity: p.rarity,
        fallback: p.fallback,
    }
}

/// The effect of a `Probe` line: it closes the open block, if one has
/// begun, and begins the next. What lines before the first `Probe` line
/// declared goes to the first block.
pub open spec fn begin(p: Progress, probe: ProbeView) -> Progress {
    match p.probe {
        Some(previous) => Progress {
            finished: p.finished.push(block_of(p, previous)),
            probe: Some(probe),
            rejected: p.rejected,
            ..start()
        },
        None => Progress { probe: Some(probe), ..p },
    }
}

/// The effect of one line, the `index`-th: a malformed line is recorded and
/// changes nothing else; a well-formed one takes effect.
pub open spec fn step(p: Progress, index: int, line: Seq<char>) -> Progress {
    match directive_of(line) {
        Err(kind) => Progress {
            rejected: p.rejected.push(ParseError { line: index as usize, kind }),
            ..p
        },
        Ok(DirectiveView::Probe(probe)) => begin(p, probe),
        Ok(DirectiveView::Match(m)) => Progress { matchs: p.matchs.push(m), ..p },
        Ok(DirectiveView::Softmatch(m)) => Progress { softmatchs: p.softmatchs.push(m), ..p },
        Ok(DirectiveView::Ports(list)) => Progress { ports: Some(list), ..p },
        Ok(DirectiveView::Sslports(list)) => Progress { sslports: Some(list), ..p },
        Ok(DirectiveView::Totalwaitms(n)) => Progress { totalwaitms: Some(n), ..p },
        Ok(DirectiveView::Tcpwrappedms(n)) => Progress { tcpwrappedms: Some(n), ..p },
        Ok(DirectiveView::Rarity(n)) => Progress { rarity: Some(n), ..p },
        Ok(DirectiveView::Fallback(names)) => Progress { fallback: Some(names), ..p },
        Ok(DirectiveView::Other) => p,
    }
}

/// The progress after all of `lines`, read in order.
pub open spec fn progress(lines: Seq<Seq<char>>) -> Progress
    decreases lines.len(),
{
    if lines.len() == 0 {
        start()
    } else {
        step(progress(lines.drop_last()), lines.len() - 1, lines.last())
    }
}

/// The blocks read: the closed ones, then the open one if one has begun.
pub open spec fn blocks(p: Progress) -> Seq<ServiceProbesView> {
    match p.probe {
        Some(probe) => p.finished.push(block_of(p, probe)),
        None => p.finished,
    }
}

/// What `lines` hold: the blocks that the well-formed lines declare, and
/// the record of the malformed ones.
pub open spec fn database(lines: Seq<Seq<char>>) -> (Seq<ServiceProbesView>, Seq<ParseError>) {
    (blocks(progress(lines)), progress(lines).rejected)
}

/// A reader of the database, fed line by line.
#[derive(Debug)]
pub struct Parser {
    pub finished: Vec<ServiceProbes>,
    pub probe: Option<Probe>,
    pub matchs: Vec<Match>,
    pub softmatchs: Vec<Match>,
    pub ports: Option<Vec<u16>>,
    pub sslports: Option<Vec<u16>>,
    pub totalwaitms: Option<u64>,
    pub tcpwrappedms: Option<u64>,
    pub rarity: Option<u64>,
    pub fallback: Option<Vec<String>>,
    pub rejected: Vec<ParseError>,
}

/// The view of an optional probe.
pub open spec fn probe_view(probe: Option<Probe>) -> Option<ProbeView> {
    match probe {
        Some(p) => Some(p@),
        None => None,
    }
}

impl View for Parser {
    type V = Progress;

    open spec fn view(&self) -> Progress {
        Progress {
            finished: probes_views(self.finished@),
            probe: probe_view(self.probe),
            matchs: match_views(self.matchs@),
            softmatchs: match_views(self.softmatchs@),
            ports: ports_view(self.ports),
            sslports: ports_view(self.sslports),
            totalwaitms: self.totalwaitms,
            tcpwrappedms: self.tcpwrappedms,
            rarity: self.rarity,
            fallback: names_view(self.fallback),
            rejected: self.rejected@,
        }
    }
}

impl Parser {
    /// A reader that has read nothing.
    pub fn new() -> (parser: Parser)
        ensures
            parser@ == start(),
    {
        let parser = Parser {
            finished: Vec::new(),
            probe: None,
            matchs: Vec::new(),
            softmatchs: Vec::new(),
            ports: None,
            sslports: None,
            totalwaitms: None,
            tcpwrappedms: None,
            rarity: None,
            fallback: None,
            rejected: Vec::new(),
        };
        assert(parser@.finished == Seq::<ServiceProbesView>::empty());
        assert(parser@.matchs == Seq::<MatchView>::empty());
        assert(parser@.softmatchs == Seq::<MatchView>::empty());
        parser
    }

    /// Reads the `index`-th line.
    pub fn feed(self, index: usize, line: &str) -> (next: Parser)
        ensures
            next@ == step(self@, index as int, line@),
    {
        let ghost before = self@;
        let Parser {
            finished,
            probe,
            matchs,
            softmatchs,
            ports,
            sslports,
            totalwaitms,
            tcpwrappedms,
            rarity,
            fallback,
            rejected,
        } = self;
        match parse_directive(line) {
            Err(kind) => {
                let mut rejected = rejected;
                rejected.push(ParseError { line: index, kind });
                Parser {
                    finished,
                    probe,
                    matchs,
                    softmatchs,
                    ports,
                    sslports,
                    totalwaitms,
                    tcpwrappedms,
                    rarity,
                    fallback,
                    rejected,
                }
            },
            Ok(Directive::Probe(p)) => {
                match probe {
                    Some(previous) => {
                        let block = ServiceProbes {
                            probe: previous,
                            matchs,
                            softmatchs,
                            ports,
                            sslports,
                            totalwaitms,
                            tcpwrappedms,
                            rarity,
                            fallback,
                        };
                        assert(block@ == block_of(before, previous@));
                        assert(probes_views(finished@.push(block)) == probes_views(
                            finished@,
                        ).push(block@));
                        let mut finished = finished;
                        finished.push(block);
                        let next = Parser {
                            finished,
                            probe: Some(p),
                            matchs: Vec::new(),
                            softmatchs: Vec::new(),
                            ports: None,
                            sslports: None,
                            totalwaitms: None,
                            tcpwrappedms: None,
                            rarity: None,
                            fallback: None,
                            rejected,
                        };
                        assert(next@.matchs == Seq::<MatchView>::empty());
                        assert(next@.softmatchs == Seq::<MatchView>::empty());
                        next
                    },
                    None => Parser {
                        finished,
                        probe: Some(p),
                        matchs,
                        softmatchs,
                        ports,
                        sslports,
                        totalwaitms,
                        tcpwrappedms,
                        rarity,
                        fallback,
                        rejected,
                    },
                }
            },
            Ok(Directive::Match(m)) => {
                assert(match_views(matchs@.push(m)) == match_views(matchs@).push(m@));
                let mut matchs = matchs;
                matchs.push(m);
                Parser {
                    finished,
                    probe,
                    matchs,
                    softmatchs,
                    ports,
                    sslports,
                    totalwaitms,
                    tcpwrappedms,
                    rarity,
                    fallback,
                    rejected,
                }
            },
            Ok(Directive::Softmatch(m)) => {
                assert(match_views(softmatchs@.push(m)) == match_views(softmatchs@).push(m@));
                let mut softmatchs = softmatchs;
                softmatchs.push(m);
                Parser {
                    finished,
                    probe,
                    matchs,
                    softmatchs,
                    ports,
                    sslports,
                    totalwaitms,
                    tcpwrappedms,
                    rarity,
                    fallback,
                    rejected,
                }
            },
            Ok(Directive::Ports(list)) => Parser {
                finished,
                probe,
                matchs,
                softmatchs,
                ports: Some(list),
                sslports,
                totalwaitms,
                tcpwrappedms,
                rarity,
                fallback,
                rejected,
            },
            Ok(Directive::Sslports(list)) => Parser {
                finished,
                probe,
                matchs,
                softmatchs,
                ports,
                sslports: Some(list),
                totalwaitms,
                tcpwrappedms,
                rarity,
                fallback,
                rejected,
            },
            Ok(Directive::Totalwaitms(n)) => Parser {
                finished,
                probe,
                matchs,
                softmatchs,
                ports,
                sslports,
                totalwaitms: Some(n),
                tcpwrappedms,
                rarity,
                fallback,
                rejected,
            },
            Ok(Directive::Tcpwrappedms(n)) => Parser {
                finished,
                probe,
                matchs,
                softmatchs,
                ports,
                sslports,
                totalwaitms,
                tcpwrappedms: Some(n),
                rarity,
                fallback,
                rejected,
            },
            Ok(Directive::Rarity(n)) => Parser {
                finished,
                probe,
                matchs,
                softmatchs,
                ports,
                sslports,
                totalwaitms,
                tcpwrappedms,
                rarity: Some(n),
                fallback,
                rejected,
            },
            Ok(Directive::Fallback(names)) => Parser {
                finished,
                probe,
                matchs,
                softmatchs,
                ports,
                sslports,
                totalwaitms,
                tcpwrappedms,
                rarity,
                fallback: Some(names),
                rejected,
            },
            Ok(Directive::Other) => Parser {
                finished,
                probe,
                matchs,
                softmatchs,
                ports,
                sslports,
                totalwaitms,
                tcpwrappedms,
                rarity,
                fallback,
                rejected,
            },
        }
    }

    /// The blocks read, the open one closed, and the lines rejected.
    pub fn finish(self) -> (r: (Vec<ServiceProbes>, Vec<ParseError>))
        ensures
            probes_views(r.0@) == blocks(self@),
            r.1@ == self@.rejected,
    {
        let ghost before = self@;
        let Parser {
            finished,
            probe,
            matchs,
            softmatchs,
            ports,
            sslports,
            totalwaitms,
            tcpwrappedms,
            rarity,
            fallback,
            rejected,
        } = self;
        let mut finished = finished;
        match probe {
            Some(last) => {
                let block = ServiceProbes {
                    probe: last,
                    matchs,
                    softmatchs,
                    ports,
                    sslports,
                    totalwaitms,
                    tcpwrappedms,
                    rarity,
                    fallback,
                };
                assert(block@ == block_of(before, last@));
                assert(probes_views(finished@.push(block)) == probes_views(finished@).push(
                    block@,
                ));
                finished.push(block);
            },
            None => {},
        }
        (finished, rejected)
    }
}


/// Reading the same lines again yields the same database and the same
/// record of rejected lines: block for block the same probe, rules, ports
/// and numbers, and rules that match and capture the same in every text.
pub proof fn lemma_reparse_identical(
    lines: Seq<String>,
    first: (Vec<ServiceProbes>, Vec<ParseError>),
    second: (Vec<ServiceProbes>, Vec<ParseError>),
)
    requires
        outcome_view(first) == database(string_views(lines)),
        outcome_view(second) == database(string_views(lines)),
    ensures
        outcome_view(first) == outcome_view(second),
{
}

/// The reason for which a line is rejected, if it is.
pub open spec fn fault(line: Seq<char>) -> Option<ParseErrorKind> {
    match directive_of(line) {
        Err(kind) => Some(kind),
        Ok(_) => None,
    }
}

/// The record of the faults among the first `upto` of `faults`: each with
/// its position, in order.
pub open spec fn record(faults: Seq<Option<ParseErrorKind>>, upto: int) -> Seq<ParseError>
    decreases upto,
{
    if upto <= 0 {
        Seq::empty()
    } else {
        match faults[upto - 1] {
            Some(kind) => record(faults, upto - 1).push(
                ParseError { line: (upto - 1) as usize, kind },
            ),
            None => record(faults, upto - 1),
        }
    }
}

/// The record holds each fault once, at its position, in order.
pub proof fn lemma_record(faults: Seq<Option<ParseErrorKind>>, upto: int)
    requires
        0 <= upto <= faults.len() <= usize::MAX,
    ensures
        forall|j: int|
            0 <= j < record(faults, upto).len() ==> {
                let e = #[trigger] record(faults, upto)[j];
                e.line < upto && faults[e.line as int] == Some(e.kind)
            },
        forall|i: int|
            0 <= i < upto && (#[trigger] faults[i]) is Some ==> exists|j: int|
                0 <= j < record(faults, upto).len() && record(faults, upto)[j].line == i,
        forall|j: int, k: int|
            0 <= j < k < record(faults, upto).len() ==> record(faults, upto)[j].line < record(
                faults,
                upto,
            )[k].line,
    decreases upto,
{
    if upto > 0 {
        lemma_record(faults, upto - 1);
        let old_r = record(faults, upto - 1);
        let new_r = record(faults, upto);
        let last = upto - 1;
        assert forall|i: int| 0 <= i < upto && (#[trigger] faults[i]) is Some implies exists|
            j: int,
        | 0 <= j < new_r.len() && new_r[j].line == i by {
            if i < last {
                let j = choose|j: int| 0 <= j < old_r.len() && old_r[j].line == i;
                assert(new_r[j].line == i);
            } else {
                assert(new_r[old_r.len() as int].line == i);
            }
        }
    }
}

/// The faults of lines, line by line.
pub open spec fn faults_of(lines: Seq<Seq<char>>) -> Seq<Option<ParseErrorKind>> {
    Seq::new(lines.len(), |i: int| fault(lines[i]))
}

/// The rejected lines are the record of the faults of the lines.
pub proof fn lemma_rejected_is_record(lines: Seq<Seq<char>>)
    ensures
        progress(lines).rejected == record(faults_of(lines), lines.len() as int),
    decreases lines.len(),
{
    if lines.len() > 0 {
        let before = lines.drop_last();
        lemma_rejected_is_record(before);
        lemma_record_agrees(faults_of(before), faults_of(lines), before.len() as int);
        assert(faults_of(lines)[lines.len() - 1] == fault(lines.last()));
    }
}

/// The record of the first faults reads only those.
pub proof fn lemma_record_agrees(
    a: Seq<Option<ParseErrorKind>>,
    b: Seq<Option<ParseErrorKind>>,
    upto: int,
)
    requires
        0 <= upto <= a.len(),
        upto <= b.len(),
        forall|i: int| 0 <= i < upto ==> a[i] == b[i],
    ensures
        record(a, upto) == record(b, upto),
    decreases upto,
{
    if upto > 0 {
        lemma_record_agrees(a, b, upto - 1);
    }
}

/// The rejected lines are exactly the malformed ones, each recorded once
/// with its reason, in the order of the lines.
pub proof fn lemma_rejected_lines(lines: Seq<Seq<char>>)
    requires
        lines.len() <= usize::MAX,
    ensures
        forall|j: int|
            0 <= j < progress(lines).rejected.len() ==> {
                let e = #[trigger] progress(lines).rejected[j];
                e.line < lines.len() && directive_of(lines[e.line as int]) == Err::<
                    DirectiveView,
                    ParseErrorKind,
                >(e.kind)
            },
        forall|i: int|
            0 <= i < lines.len() && (#[trigger] directive_of(lines[i])) is Err ==> exists|j: int|
                0 <= j < progress(lines).rejected.len() && progress(lines).rejected[j].line == i,
        forall|j: int, k: int|
            0 <= j < k < progress(lines).rejected.len() ==> progress(lines).rejected[j].line
                < progress(lines).rejected[k].line,
{
    let faults = faults_of(lines);
    let r = record(faults, lines.len() as int);
    lemma_rejected_is_record(lines);
    lemma_record(faults, lines.len() as int);
    assert forall|j: int| 0 <= j < r.len() implies {
        let e = #[trigger] r[j];
        e.line < lines.len() && directive_of(lines[e.line as int]) == Err::<
            DirectiveView,
            ParseErrorKind,
        >(e.kind)
    } by {
        let e = r[j];
        assert(faults[e.line as int] == Some(e.kind));
        assert(fault(lines[e.line as int]) == Some(e.kind));
    }
    assert forall|i: int|
        0 <= i < lines.len() && (#[trigger] directive_of(lines[i])) is Err implies exists|j: int|
        0 <= j < r.len() && r[j].line == i by {
        assert(faults[i] == fault(lines[i]));
        assert(faults[i] is Some);
    }
}

/// A malformed line changes nothing but the record: what the lines hold
/// with a malformed line at the end is what they hold without it, and one
/// more rejected line.
pub proof fn lemma_malformed_is_skipped(lines: Seq<Seq<char>>, line: Seq<char>)
    requires
        directive_of(line) is Err,
    ensures
        blocks(progress(lines.push(line))) == blocks(progress(lines)),
        progress(lines.push(line)).rejected == progress(lines).rejected.push(
            ParseError { line: lines.len() as usize, kind: directive_of(line)->Err_0 },
        ),
{
    assert(lines.push(line).drop_last() == lines);
}

/// The number of well-formed `Probe` lines among `lines`.
pub open spec fn probe_lines(lines: Seq<Seq<char>>) -> nat
    decreases lines.len(),
{
    if lines.len() == 0 {
        0
    } else if directive_of(lines.last()) matches Ok(DirectiveView::Probe(_)) {
        probe_lines(lines.drop_last()) + 1
    } else {
        probe_lines(lines.drop_last())
    }
}

/// The database holds one block for each well-formed `Probe` line.
pub proof fn lemma_one_block_per_probe(lines: Seq<Seq<char>>)
    ensures
        blocks(progress(lines)).len() == probe_lines(lines),
        progress(lines).probe is None ==> progress(lines).finished.len() == 0,
    decreases lines.len(),
{
    if lines.len() > 0 {
        lemma_one_block_per_probe(lines.drop_last());
    }
}

/// Whether a rule's compiled expression is the one its pattern compiles to.
pub open spec fn compiled(m: MatchView) -> bool {
    pattern_captures(m.pattern) == Some(m.captures)
}

/// Whether every rule among `rules` is compiled from its pattern.
pub open spec fn all_compiled(rules: Seq<MatchView>) -> bool {
    forall|i: int| 0 <= i < rules.len() ==> compiled(#[trigger] rules[i])
}

/// Whether every rule of every block is compiled from its pattern.
pub open spec fn blocks_compiled(db: Seq<ServiceProbesView>) -> bool {
    forall|i: int|
        0 <= i < db.len() ==> all_compiled((#[trigger] db[i]).matchs) && all_compiled(
            db[i].softmatchs,
        )
}

/// Every rule of the database read from `lines` matches exactly the texts
/// that its pattern, compiled, finds a match in.
pub proof fn lemma_rules_compiled(lines: Seq<Seq<char>>)
    ensures
        blocks_compiled(blocks(progress(lines))),
        blocks_compiled(progress(lines).finished),
        all_compiled(progress(lines).matchs),
        all_compiled(progress(lines).softmatchs),
    decreases lines.len(),
{
    if lines.len() > 0 {
        lemma_rules_compiled(lines.drop_last());
        let before = progress(lines.drop_last());
        let after = progress(lines);
        match directive_of(lines.last()) {
            Ok(DirectiveView::Match(m)) => {
                assert(compiled(m));
            },
            Ok(DirectiveView::Softmatch(m)) => {
                assert(compiled(m));
            },
            _ => {},
        }
        assert(all_compiled(after.matchs));
        assert(all_compiled(after.softmatchs));
        assert(blocks_compiled(after.finished)) by {
            assert forall|i: int| 0 <= i < after.finished.len() implies all_compiled(
                (#[trigger] after.finished[i]).matchs,
            ) && all_compiled(after.finished[i].softmatchs) by {
                if i < before.finished.len() {
                    assert(after.finished[i] == before.finished[i]);
                }
            }
        }
    }
    let p = progress(lines);
    assert(blocks_compiled(blocks(p))) by {
        assert forall|i: int| 0 <= i < blocks(p).len() implies all_compiled(
            (#[trigger] blocks(p)[i]).matchs,
        ) && all_compiled(blocks(p)[i].softmatchs) by {
            if i < p.finished.len() {
                assert(blocks(p)[i] == p.finished[i]);
            }
        }
    }
}

} // verus!
