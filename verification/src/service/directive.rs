//! The grammar of the lines of the service-probe database, directive by
//! directive.

use crate::service::dbparser::{Match, MatchView, ParseErrorKind, Probe, ProbesProtocol, ProbeView};
use crate::service::pattern::{pattern_captures, regex_captures};
use crate::service::ports::{has_char, parse_u64, port_list, read_port_list, read_u64};
use crate::text::{
    append, chars_of, contains, contains_text, join_from, join_with, replace, replaced,
    rest_from, same_text, split, split_on, starts_with, string_of, string_views, trim, trimmed,
    views, words,
};
use regex::Regex;
use vstd::prelude::*;

verus! {

/// The delimiter of a pattern: the character after the leading `m` where
/// that is `|` or `=`, and `%` otherwise.
pub open spec fn delimiter_of(spec_text: Seq<char>) -> char {
    if seq!['m', '|'].is_prefix_of(spec_text) {
        '|'
    } else if seq!['m', '='].is_prefix_of(spec_text) {
        '='
    } else {
        '%'
    }
}

/// The inline options that the flags after a pattern stand for: `i` makes
/// the pattern case-insensitive, `s` lets a dot match a line break.
pub open spec fn flag_prefix(flags: Seq<char>) -> Seq<char> {
    if flags.contains('i') && flags.contains('s') {
        seq!['(', '?', 'i', 's', ')']
    } else if flags.contains('i') {
        seq!['(', '?', 'i', ')']
    } else if flags.contains('s') {
        seq!['(', '?', 's', ')']
    } else {
        Seq::empty()
    }
}

/// The pattern as it is compiled: the options, then the body with each
/// `\0` rewritten to `\x{0}`.
pub open spec fn compiled_pattern(flags: Seq<char>, body: Seq<char>) -> Seq<char> {
    flag_prefix(flags) + replaced(body, seq!['\\', '0'], seq!['\\', 'x', '{', '0', '}'])
}

/// The texts of a `match` or `softmatch` line: the service, the pattern
/// as it is compiled, and the version template.
pub struct MatchFields {
    pub service: Seq<char>,
    pub pattern: Seq<char>,
    pub versioninfo: Seq<char>,
}

/// The texts that a `match` or `softmatch` line holds.
///
/// The line is `<keyword> <service> m<d><body><d><flags> <versioninfo>`.
/// The text after the second space is cut at the delimiter `d`: the second
/// piece is the body; what follows the closing delimiter is cut at its first
/// space into flags and version template. The line lacks a field where it
/// has no second word or no delimiter after the `m`.
pub open spec fn match_fields(line: Seq<char>) -> Result<MatchFields, ParseErrorKind> {
    let w = words(line);
    if w.len() < 2 {
        Err(ParseErrorKind::MissingField)
    } else {
        let spec_text = join_with(w.skip(2), ' ');
        let d = delimiter_of(spec_text);
        let pieces = split_on(spec_text, d);
        if pieces.len() < 2 {
            Err(ParseErrorKind::MissingField)
        } else {
            let tail = split_on(join_with(pieces.skip(2), d), ' ');
            Ok(
                MatchFields {
                    service: w[1],
                    pattern: compiled_pattern(tail[0], pieces[1]),
                    versioninfo: join_with(tail.skip(1), ' '),
                },
            )
        }
    }
}

/// The rule that texts and the outcome of compiling their pattern make:
/// the pattern is bad where it is rejected.
pub open spec fn rule_of(
    fields: MatchFields,
    captures: Option<Map<Seq<char>, Seq<Option<Seq<char>>>>>,
) -> Result<MatchView, ParseErrorKind> {
    match captures {
        Some(captures) => Ok(
            MatchView {
                service: fields.service,
                pattern: fields.pattern,
                versioninfo: fields.versioninfo,
                captures,
            },
        ),
        None => Err(ParseErrorKind::BadPattern),
    }
}

/// What a `match` or `softmatch` line declares: the rule of its texts,
/// with the pattern compiled.
pub open spec fn match_of(line: Seq<char>) -> Result<MatchView, ParseErrorKind> {
    match match_fields(line) {
        Ok(fields) => rule_of(fields, pattern_captures(fields.pattern)),
        Err(e) => Err(e),
    }
}

/// What a `Probe` line declares.
///
/// The line is `Probe <TCP|UDP> <name> q|<payload>|` with an optional
/// ` no-payload` behind it. The payload is the text between the first two
/// bars after the third space, trimmed of white space. The probe is barred
/// from use as a payload where `no-payload` stands behind the second bar.
pub open spec fn probe_of(line: Seq<char>) -> Result<ProbeView, ParseErrorKind> {
    let w = words(line);
    if w.len() < 3 {
        Err(ParseErrorKind::MissingField)
    } else if w[1] != seq!['T', 'C', 'P'] && w[1] != seq!['U', 'D', 'P'] {
        Err(ParseErrorKind::UnknownProtocol)
    } else {
        let rest = join_with(w.skip(3), ' ');
        let pieces = split_on(rest, '|');
        if pieces.len() < 2 {
            Err(ParseErrorKind::MissingField)
        } else {
            Ok(
                ProbeView {
                    protocol: if w[1] == seq!['T', 'C', 'P'] {
                        ProbesProtocol::Tcp
                    } else {
                        ProbesProtocol::Udp
                    },
                    probename: w[2],
                    probestring: trimmed(pieces[1]),
                    no_payload: contains_text(join_with(pieces.skip(2), '|'), "no-payload"@),
                },
            )
        }
    }
}

/// The number that a `totalwaitms`, `tcpwrappedms` or `rarity` line gives:
/// its second word, in decimal.
pub open spec fn number_of(line: Seq<char>) -> Result<u64, ParseErrorKind> {
    let w = words(line);
    if w.len() < 2 {
        Err(ParseErrorKind::MissingField)
    } else {
        match parse_u64(w[1]) {
            Some(n) => Ok(n),
            None => Err(ParseErrorKind::BadNumber),
        }
    }
}

/// The ports that a `ports` or `sslports` line gives: the port list after
/// the first space.
pub open spec fn ports_of(line: Seq<char>) -> Result<Seq<u16>, ParseErrorKind> {
    match port_list(rest_from(line, 1)) {
        Some(list) => Ok(list),
        None => Err(ParseErrorKind::BadNumber),
    }
}

/// The names that the words of a `fallback` line list: the pieces of each
/// word between commas, in order.
pub open spec fn names_of(list: Seq<Seq<char>>) -> Seq<Seq<char>>
    decreases list.len(),
{
    if list.len() == 0 {
        Seq::empty()
    } else {
        names_of(list.drop_last()) + split_on(list.last(), ',')
    }
}

/// What one line of the database declares.
pub enum DirectiveView {
    Probe(ProbeView),
    Match(MatchView),
    Softmatch(MatchView),
    Ports(Seq<u16>),
    Sslports(Seq<u16>),
    Totalwaitms(u64),
    Tcpwrappedms(u64),
    Rarity(u64),
    Fallback(Seq<Seq<char>>),
    /// A blank line, a comment, an `Exclude` line, or anything else that
    /// starts with none of the keywords.
    Other,
}

/// Reads one line: the keyword it starts with decides the directive, and
/// the directive's grammar decides whether the line is well formed.
pub open spec fn directive_of(line: Seq<char>) -> Result<DirectiveView, ParseErrorKind> {
    if "Probe"@.is_prefix_of(line) {
        match probe_of(line) {
            Ok(p) => Ok(DirectiveView::Probe(p)),
            Err(e) => Err(e),
        }
    } else if "match"@.is_prefix_of(line) {
        match match_of(line) {
            Ok(m) => Ok(DirectiveView::Match(m)),
            Err(e) => Err(e),
        }
    } else if "softmatch"@.is_prefix_of(line) {
        match match_of(line) {
            Ok(m) => Ok(DirectiveView::Softmatch(m)),
            Err(e) => Err(e),
        }
    } else if "ports"@.is_prefix_of(line) {
        match ports_of(line) {
            Ok(p) => Ok(DirectiveView::Ports(p)),
            Err(e) => Err(e),
        }
    } else if "sslports"@.is_prefix_of(line) {
        match ports_of(line) {
            Ok(p) => Ok(DirectiveView::Sslports(p)),
            Err(e) => Err(e),
        }
    } else if "totalwaitms"@.is_prefix_of(line) {
        match number_of(line) {
            Ok(n) => Ok(DirectiveView::Totalwaitms(n)),
            Err(e) => Err(e),
        }
    } else if "tcpwrappedms"@.is_prefix_of(line) {
        match number_of(line) {
            Ok(n) => Ok(DirectiveView::Tcpwrappedms(n)),
            Err(e) => Err(e),
        }
    } else if "rarity"@.is_prefix_of(line) {
        match number_of(line) {
            Ok(n) => Ok(DirectiveView::Rarity(n)),
            Err(e) => Err(e),
        }
    } else if "fallback"@.is_prefix_of(line) {
        Ok(DirectiveView::Fallback(names_of(words(line).skip(1))))
    } else {
        Ok(DirectiveView::Other)
    }
}

/// One line of the database, read.
#[derive(Debug)]
pub enum Directive {
    Probe(Probe),
    Match(Match),
    Softmatch(Match),
    Ports(Vec<u16>),
    Sslports(Vec<u16>),
    Totalwaitms(u64),
    Tcpwrappedms(u64),
    Rarity(u64),
    Fallback(Vec<String>),
    Other,
}

impl View for Directive {
    type V = DirectiveView;

    open spec fn view(&self) -> DirectiveView {
        match self {
            Directive::Probe(p) => DirectiveView::Probe(p@),
            Directive::Match(m) => DirectiveView::Match(m@),
            Directive::Softmatch(m) => DirectiveView::Softmatch(m@),
            Directive::Ports(p) => DirectiveView::Ports(p@),
            Directive::Sslports(p) => DirectiveView::Sslports(p@),
            Directive::Totalwaitms(n) => DirectiveView::Totalwaitms(*n),
            Directive::Tcpwrappedms(n) => DirectiveView::Tcpwrappedms(*n),
            Directive::Rarity(n) => DirectiveView::Rarity(*n),
            Directive::Fallback(names) => DirectiveView::Fallback(string_views(names@)),
            Directive::Other => DirectiveView::Other,
        }
    }
}

/// The texts of a `match` or `softmatch` line, read: the service, the
/// pattern as it is compiled, and the version template.
#[derive(Debug)]
pub struct MatchTexts {
    pub service: String,
    pub pattern: String,
    pub versioninfo: String,
}

impl View for MatchTexts {
    type V = MatchFields;

    open spec fn view(&self) -> MatchFields {
        MatchFields {
            service: self.service@,
            pattern: self.pattern@,
            versioninfo: self.versioninfo@,
        }
    }
}

/// Computes `match_fields`.
pub fn read_match_fields(line: &[char]) -> (r: Result<MatchTexts, ParseErrorKind>)
    ensures
        match r {
            Ok(texts) => match_fields(line@) == Ok::<MatchFields, ParseErrorKind>(texts@),
            Err(e) => match_fields(line@) == Err::<MatchFields, ParseErrorKind>(e),
        },
{
    let w = split(line, ' ');
    if w.len() < 2 {
        return Err(ParseErrorKind::MissingField);
    }
    assert(views(w@)[1] == w[1]@);
    let spec_text = join_from(&w, 2, ' ');
    let bar = vec!['m', '|'];
    let equals = vec!['m', '='];
    let d: char = if starts_with(spec_text.as_slice(), bar.as_slice()) {
        '|'
    } else if starts_with(spec_text.as_slice(), equals.as_slice()) {
        '='
    } else {
        '%'
    };
    assert(bar@ == seq!['m', '|']);
    assert(equals@ == seq!['m', '=']);
    let pieces = split(spec_text.as_slice(), d);
    if pieces.len() < 2 {
        return Err(ParseErrorKind::MissingField);
    }
    assert(views(pieces@)[1] == pieces[1]@);
    let after = join_from(&pieces, 2, d);
    let tail = split(after.as_slice(), ' ');
    assert(views(tail@)[0] == tail[0]@);
    let flags = tail[0].as_slice();
    let insensitive = has_char(flags, 'i');
    let dotall = has_char(flags, 's');
    let mut pattern: Vec<char> = if insensitive && dotall {
        vec!['(', '?', 'i', 's', ')']
    } else if insensitive {
        vec!['(', '?', 'i', ')']
    } else if dotall {
        vec!['(', '?', 's', ')']
    } else {
        Vec::new()
    };
    assert(pattern@ == flag_prefix(flags@));
    let nul = vec!['\\', '0'];
    let escaped = vec!['\\', 'x', '{', '0', '}'];
    assert(nul@ == seq!['\\', '0']);
    assert(escaped@ == seq!['\\', 'x', '{', '0', '}']);
    let body = replace(pieces[1].as_slice(), nul.as_slice(), escaped.as_slice());
    append(&mut pattern, body.as_slice());
    let versioninfo = join_from(&tail, 1, ' ');
    Ok(
        MatchTexts {
            service: string_of(w[1].as_slice()),
            pattern: string_of(pattern.as_slice()),
            versioninfo: string_of(versioninfo.as_slice()),
        },
    )
}

/// The outcome of compiling a pattern, seen as what the compiled
/// expression holds.
pub open spec fn compiled_view(compiled: Result<Regex, regex::Error>) -> Option<
    Map<Seq<char>, Seq<Option<Seq<char>>>>,
> {
    match compiled {
        Ok(re) => Some(regex_captures(re)),
        Err(_) => None,
    }
}

/// Makes a rule of the texts of a line and the outcome of compiling their
/// pattern: the rule where the pattern compiled, and a bad pattern where
/// it was rejected.
pub fn make_match(texts: MatchTexts, compiled: Result<Regex, regex::Error>) -> (r: Result<
    Match,
    ParseErrorKind,
>)
    ensures
        match r {
            Ok(m) => rule_of(texts@, compiled_view(compiled)) == Ok::<MatchView, ParseErrorKind>(
                m@,
            ),
            Err(e) => rule_of(texts@, compiled_view(compiled)) == Err::<MatchView, ParseErrorKind>(
                e,
            ),
        },
        r matches Ok(m) ==> compiled matches Ok(re) && m.re == re,
{
    match compiled {
        Ok(re) => Ok(
            Match {
                service: texts.service,
                pattern: texts.pattern,
                versioninfo: texts.versioninfo,
                re,
            },
        ),
        Err(_) => Err(ParseErrorKind::BadPattern),
    }
}

/// Computes `match_of`.
pub fn read_match(line: &[char]) -> (r: Result<Match, ParseErrorKind>)
    ensures
        match r {
            Ok(m) => match_of(line@) == Ok::<MatchView, ParseErrorKind>(m@) && m.wf(),
            Err(e) => match_of(line@) == Err::<MatchView, ParseErrorKind>(e),
        },
{
    match read_match_fields(line) {
        Ok(texts) => {
            let compiled = Regex::new(texts.pattern.as_str());
            make_match(texts, compiled)
        },
        Err(e) => Err(e),
    }
}

/// Computes `probe_of`.
pub fn read_probe(line: &[char]) -> (r: Result<Probe, ParseErrorKind>)
    ensures
        match r {
            Ok(p) => probe_of(line@) == Ok::<ProbeView, ParseErrorKind>(p@),
            Err(e) => probe_of(line@) == Err::<ProbeView, ParseErrorKind>(e),
        },
{
    let w = split(line, ' ');
    if w.len() < 3 {
        return Err(ParseErrorKind::MissingField);
    }
    assert(views(w@)[1] == w[1]@);
    assert(views(w@)[2] == w[2]@);
    let tcp = vec!['T', 'C', 'P'];
    let udp = vec!['U', 'D', 'P'];
    assert(tcp@ == seq!['T', 'C', 'P']);
    assert(udp@ == seq!['U', 'D', 'P']);
    let protocol = if same_text(w[1].as_slice(), tcp.as_slice()) {
        ProbesProtocol::Tcp
    } else if same_text(w[1].as_slice(), udp.as_slice()) {
        ProbesProtocol::Udp
    } else {
        return Err(ParseErrorKind::UnknownProtocol);
    };
    let rest = join_from(&w, 3, ' ');
    let pieces = split(rest.as_slice(), '|');
    if pieces.len() < 2 {
        return Err(ParseErrorKind::MissingField);
    }
    assert(views(pieces@)[1] == pieces[1]@);
    let payload = trim(pieces[1].as_slice());
    let marker = chars_of("no-payload");
    let behind = join_from(&pieces, 2, '|');
    let no_payload = contains(behind.as_slice(), marker.as_slice());
    Ok(
        Probe {
            protocol,
            probename: string_of(w[2].as_slice()),
            probestring: string_of(payload.as_slice()),
            no_payload,
        },
    )
}

/// Computes `number_of`.
pub fn read_number(line: &[char]) -> (r: Result<u64, ParseErrorKind>)
    ensures
        r == number_of(line@),
{
    let w = split(line, ' ');
    if w.len() < 2 {
        return Err(ParseErrorKind::MissingField);
    }
    assert(views(w@)[1] == w[1]@);
    match read_u64(w[1].as_slice()) {
        Some(n) => Ok(n),
        None => Err(ParseErrorKind::BadNumber),
    }
}

/// Computes `ports_of`.
pub fn read_ports(line: &[char]) -> (r: Result<Vec<u16>, ParseErrorKind>)
    ensures
        match r {
            Ok(list) => ports_of(line@) == Ok::<Seq<u16>, ParseErrorKind>(list@),
            Err(e) => ports_of(line@) == Err::<Seq<u16>, ParseErrorKind>(e),
        },
{
    let w = split(line, ' ');
    let rest = join_from(&w, 1, ' ');
    read_port_list(rest.as_slice())
}

/// The names that a `fallback` line lists, as strings.
pub fn read_names(line: &[char]) -> (names: Vec<String>)
    ensures
        string_views(names@) == names_of(words(line@).skip(1)),
{
    let w = split(line, ' ');
    let ghost list = words(line@).skip(1);
    let mut names: Vec<String> = Vec::new();
    let mut i: usize = 1;
    assert(list.take(0).len() == 0);
    while i < w.len()
        invariant
            1 <= i <= w.len(),
            list == views(w@).skip(1),
            string_views(names@) == names_of(list.take(i - 1)),
        decreases w.len() - i,
    {
        let pieces = split(w[i].as_slice(), ',');
        proof {
            let next = list.take(i as int);
            assert(next.drop_last() == list.take(i - 1));
            assert(next.last() == w[i as int]@);
        }
        let ghost before = string_views(names@);
        let mut j: usize = 0;
        while j < pieces.len()
            invariant
                j <= pieces.len(),
                string_views(names@) == before + views(pieces@).take(j as int),
            decreases pieces.len() - j,
        {
            let name = string_of(pieces[j].as_slice());
            assert(string_views(names@.push(name)) == string_views(names@).push(name@));
            assert(views(pieces@).take(j + 1) == views(pieces@).take(j as int).push(
                pieces[j as int]@,
            ));
            names.push(name);
            j += 1;
        }
        assert(views(pieces@).take(pieces.len() as int) == views(pieces@));
        i += 1;
    }
    assert(list.take(w.len() - 1) == list);
    names
}

/// Reads one line of the database.
pub fn parse_directive(line: &str) -> (r: Result<Directive, ParseErrorKind>)
    ensures
        match r {
            Ok(d) => directive_of(line@) == Ok::<DirectiveView, ParseErrorKind>(d@),
            Err(e) => directive_of(line@) == Err::<DirectiveView, ParseErrorKind>(e),
        },
        r matches Ok(Directive::Match(m)) ==> m.wf(),
        r matches Ok(Directive::Softmatch(m)) ==> m.wf(),
{
    let text = chars_of(line);
    let line = text.as_slice();
    if starts_with(line, chars_of("Probe").as_slice()) {
        match read_probe(line) {
            Ok(p) => Ok(Directive::Probe(p)),
            Err(e) => Err(e),
        }
    } else if starts_with(line, chars_of("match").as_slice()) {
        match read_match(line) {
            Ok(m) => Ok(Directive::Match(m)),
            Err(e) => Err(e),
        }
    } else if starts_with(line, chars_of("softmatch").as_slice()) {
        match read_match(line) {
            Ok(m) => Ok(Directive::Softmatch(m)),
            Err(e) => Err(e),
        }
    } else if starts_with(line, chars_of("ports").as_slice()) {
        match read_ports(line) {
            Ok(p) => Ok(Directive::Ports(p)),
            Err(e) => Err(e),
        }
    } else if starts_with(line, chars_of("sslports").as_slice()) {
        match read_ports(line) {
            Ok(p) => Ok(Directive::Sslports(p)),
            Err(e) => Err(e),
        }
    } else if starts_with(line, chars_of("totalwaitms").as_slice()) {
        match read_number(line) {
            Ok(n) => Ok(Directive::Totalwaitms(n)),
            Err(e) => Err(e),
        }
    } else if starts_with(line, chars_of("tcpwrappedms").as_slice()) {
        match read_number(line) {
            Ok(n) => Ok(Directive::Tcpwrappedms(n)),
            Err(e) => Err(e),
        }
    } else if starts_with(line, chars_of("rarity").as_slice()) {
        match read_number(line) {
            Ok(n) => Ok(Directive::Rarity(n)),
            Err(e) => Err(e),
        }
    } else if starts_with(line, chars_of("fallback").as_slice()) {
        Ok(Directive::Fallback(read_names(line)))
    } else {
        Ok(Directive::Other)
    }
}

} // verus!
