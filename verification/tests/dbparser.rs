use pistol::service::directive::{parse_directive, Directive};
use pistol::service::identify::decode_response;
use pistol::service::progress::Parser;
use pistol::service::version::expand;
use pistol::ServiceProbes;
use pistol::{
    identify_in, nsp_exclued_parser, nsp_parser, ports_parser, ParseError,
    ParseErrorKind, ProbesProtocol,
};
use regex::Regex;

fn lines(text: &[&str]) -> Vec<String> {
    text.iter().map(|s| s.to_string()).collect()
}

fn db_of(text: &[String]) -> Vec<ServiceProbes> {
    let (db, rejected) = nsp_parser(text);
    assert_eq!(rejected, vec![]);
    db
}

fn sample() -> Vec<String> {
    lines(&[
        "# Nmap service detection probe list",
        "",
        "Exclude T:9100-9107",
        "",
        "##############################NEXT PROBE##############################",
        "Probe TCP NULL q||",
        "totalwaitms 6000",
        "tcpwrappedms 3000",
        "match ssh m|^SSH-([\\d.]+)-OpenSSH[_-]([\\w.]+)\\s*\\r?\\n| p/OpenSSH/ v/$2/ i/protocol $1/",
        "match ssh m|^SSH-([\\d.]+)-OpenSSH_([\\w._-]+)[ -]{1,2}Ubuntu[ -_]([^\\r\\n]+)\\r?\\n| p/OpenSSH/ v/$2 Ubuntu $3/ i/Ubuntu Linux; protocol $1/ o/Linux/ cpe:/a:openbsd:openssh:$2/ cpe:/o:canonical:ubuntu_linux/ cpe:/o:linux:linux_kernel/a",
        "match ftp m|^220 ([-\\w_.]+) ftp server ready|i p/ftpd/ h/$1/",
        "softmatch ssh m|^SSH-\\d|",
        "",
        "Probe TCP GenericLines q|\\r\\n\\r\\n|",
        "rarity 1",
        "ports 21,23,35,1000-1002",
        "sslports 989,990",
        "match http m=^HTTP/1\\.[01] \\d\\d\\d= p/http/",
        "match nul m%^a\\0b%s p/nul/",
        "",
        "Probe UDP DNSVersionBindReq q|\\0\\x06\\x01\\0| no-payload",
        "rarity 1",
        "ports 53,1967,2967",
        "fallback GetRequest GenericLines",
    ])
}

#[test]
fn test_spp() {
    let nsp_lines = sample();

    let ret = db_of(&nsp_lines);
    println!("{}", ret.len());
    println!("{}", ret[0].matchs.len());
    assert_eq!(ret.len(), 3);
    assert_eq!(ret[0].matchs.len(), 3);

    let ret = nsp_exclued_parser(&nsp_lines).unwrap();
    println!("{:?}", ret);
    assert_eq!(ret.tcp_ports, vec![9100, 9101, 9102, 9103, 9104, 9105, 9106, 9107]);
    assert!(ret.ports.is_empty());
    assert!(ret.udp_ports.is_empty());
}

#[test]
fn test_build_regex() {
    let nsp_lines = sample();
    let service_probes = db_of(&nsp_lines);
    for sp in service_probes {
        for m in sp.matchs {
            let _re = Regex::new(&m.pattern).unwrap();
        }
    }
}

#[test]
fn blocks_hold_what_their_lines_declare() {
    let db = db_of(&sample());

    let null = &db[0];
    assert_eq!(null.probe.protocol, ProbesProtocol::Tcp);
    assert_eq!(null.probe.probename, "NULL");
    assert_eq!(null.probe.probestring, "");
    assert!(!null.probe.no_payload);
    assert_eq!(null.totalwaitms, Some(6000));
    assert_eq!(null.tcpwrappedms, Some(3000));
    assert_eq!(null.rarity, None);
    assert_eq!(null.ports, None);
    assert_eq!(null.sslports, None);
    assert!(null.fallback.is_none());
    assert_eq!(null.softmatchs.len(), 1);
    assert_eq!(null.softmatchs[0].service, "ssh");
    assert_eq!(null.softmatchs[0].pattern, "^SSH-\\d");
    assert_eq!(null.softmatchs[0].versioninfo, "");
    assert_eq!(null.matchs[0].service, "ssh");
    assert_eq!(null.matchs[0].pattern, "^SSH-([\\d.]+)-OpenSSH[_-]([\\w.]+)\\s*\\r?\\n");
    assert_eq!(null.matchs[0].versioninfo, "p/OpenSSH/ v/$2/ i/protocol $1/");

    let generic = &db[1];
    assert_eq!(generic.probe.probename, "GenericLines");
    assert_eq!(generic.probe.probestring, "\\r\\n\\r\\n");
    assert_eq!(generic.rarity, Some(1));
    assert_eq!(generic.ports, Some(vec![21, 23, 35, 1000, 1001, 1002]));
    assert_eq!(generic.sslports, Some(vec![989, 990]));
    assert_eq!(generic.matchs.len(), 2);
    assert_eq!(generic.matchs[0].pattern, "^HTTP/1\\.[01] \\d\\d\\d");
    assert_eq!(generic.matchs[0].versioninfo, "p/http/");

    let dns = &db[2];
    assert_eq!(dns.probe.protocol, ProbesProtocol::Udp);
    assert_eq!(dns.probe.probename, "DNSVersionBindReq");
    assert_eq!(dns.probe.probestring, "\\0\\x06\\x01\\0");
    assert!(dns.probe.no_payload);
    assert_eq!(dns.ports, Some(vec![53, 1967, 2967]));
    assert_eq!(
        dns.fallback,
        Some(vec!["GetRequest".to_string(), "GenericLines".to_string()])
    );
}

#[test]
fn flags_become_inline_options() {
    let db = db_of(&sample());
    let ftp = &db[0].matchs[2];
    assert_eq!(ftp.pattern, "(?i)^220 ([-\\w_.]+) ftp server ready");
    assert_eq!(ftp.versioninfo, "p/ftpd/ h/$1/");
    assert!(ftp.re.is_match("220 host FTP Server Ready"));

    let both = db_of(&lines(&["Probe TCP X q|x|", "match a m|^a.b$|is v/1/"]));
    assert_eq!(both[0].matchs[0].pattern, "(?is)^a.b$");
    assert!(both[0].matchs[0].re.is_match("A\nB"));
    let dot = db_of(&lines(&["Probe TCP X q|x|", "match a m|^a.b$|s"]));
    assert_eq!(dot[0].matchs[0].pattern, "(?s)^a.b$");
    assert!(dot[0].matchs[0].re.is_match("a\nb"));
    assert!(!dot[0].matchs[0].re.is_match("A\nB"));
}

#[test]
fn nul_escape_is_rewritten() {
    let db = db_of(&sample());
    let nul = &db[1].matchs[1];
    assert_eq!(nul.pattern, "(?s)^a\\x{0}b");
    assert_eq!(nul.versioninfo, "p/nul/");
    assert!(nul.re.is_match("a\0b"));
    assert!(!nul.re.is_match("a0b"));
}

#[test]
fn service_probe_match_ssh() {
    let db = db_of(&sample());
    let null = db.iter().find(|sp| sp.probe.probename == "NULL").unwrap();
    let response = decode_response(b"SSH-2.0-OpenSSH_8.9p1 Ubuntu-3\r\n");
    let hits = null.check(&response);
    assert_eq!(hits.len(), 1);
    assert_eq!(hits[0].service, "ssh");
    assert!(hits[0].versioninfo.contains("OpenSSH"));
    assert!(hits[0].versioninfo.contains("8.9p1"));
    assert_eq!(
        hits[0].versioninfo,
        "p/OpenSSH/ v/8.9p1 Ubuntu 3/ i/Ubuntu Linux; protocol 2.0/ o/Linux/ \
         cpe:/a:openbsd:openssh:8.9p1/ cpe:/o:canonical:ubuntu_linux/ cpe:/o:linux:linux_kernel/a"
    );
    assert_eq!(hits[0].pattern, null.matchs[1].pattern);
    assert_eq!(null.matchs[1].version(&response), Some(hits[0].versioninfo.clone()));
    let hit = null.identify(&response).unwrap();
    assert_eq!(hit.service, "ssh");
    assert_eq!(hit.versioninfo, hits[0].versioninfo);
    let index = db.iter().position(|sp| sp.probe.probename == "NULL").unwrap();
    assert_eq!(identify_in(&db, index, &response).unwrap().versioninfo, hit.versioninfo);
}

#[test]
fn evaluation_puts_the_captures_into_the_version() {
    let db = db_of(&lines(&[
        "Probe TCP NULL q||",
        "match ssh m|^SSH-([0-9.]+)-OpenSSH_([^ ]+) | p/OpenSSH/ v/$2/ i/protocol $1/",
    ]));
    let found = db[0].check("SSH-2.0-OpenSSH_8.9p1 Ubuntu-3\r\n");
    assert_eq!(found.len(), 1);
    assert_eq!(found[0].service, "ssh");
    assert_eq!(found[0].versioninfo, "p/OpenSSH/ v/8.9p1/ i/protocol 2.0/");
    assert!(found[0].versioninfo.contains("OpenSSH") && found[0].versioninfo.contains("8.9p1"));
    assert_eq!(db[0].matchs[0].versioninfo, "p/OpenSSH/ v/$2/ i/protocol $1/");
    let hit = db[0].identify("SSH-2.0-OpenSSH_8.9p1 Ubuntu-3\r\n").unwrap();
    assert_eq!(hit.versioninfo, "p/OpenSSH/ v/8.9p1/ i/protocol 2.0/");
    let told = db[0].matchs[0].hit("SSH-1.99-OpenSSH_9 x").unwrap();
    assert_eq!(told.versioninfo, "p/OpenSSH/ v/9/ i/protocol 1.99/");
    assert!(db[0].matchs[0].hit("HTTP/1.1").is_none());
}

#[test]
fn evaluation_falls_through_to_softmatch() {
    let db = db_of(&lines(&["Probe TCP NULL q||", "softmatch ftp m|^220 |"]));
    let found = db[0].check("220 hello");
    assert_eq!(found.len(), 1);
    assert_eq!(found[0].service, "ftp");
    assert!(db[0].check("221 bye").is_empty());

    let db = db_of(&lines(&[
        "Probe TCP X q|x|",
        "softmatch soft m|^(a)| v/$1/",
        "match hard m|^ab| v/1/",
        "softmatch softer m|a(.)| v/$1/",
    ]));
    let services = |text: &str| -> Vec<(String, String)> {
        db[0].check(text).into_iter().map(|m| (m.service, m.versioninfo)).collect()
    };
    assert_eq!(services("abc"), vec![("hard".to_string(), "v/1/".to_string())]);
    assert_eq!(
        services("acd"),
        vec![("soft".to_string(), "v/a/".to_string()), ("softer".to_string(), "v/c/".to_string())]
    );
    assert_eq!(services("xay"), vec![("softer".to_string(), "v/y/".to_string())]);
    assert_eq!(services("zzz"), vec![]);
}

#[test]
fn version_templates_take_what_the_pattern_captured() {
    let groups = |text: &[Option<&str>]| -> Vec<Option<String>> {
        text.iter().map(|g| g.map(|s| s.to_string())).collect()
    };
    let g = groups(&[Some("whole"), Some("one"), None, Some("three")]);
    assert_eq!(expand("", &g), "");
    assert_eq!(expand("plain text", &g), "plain text");
    assert_eq!(expand("v/$1/ i/$3/", &g), "v/one/ i/three/");
    assert_eq!(expand("$1$3$1", &g), "onethreeone");
    assert_eq!(expand("[$2]", &g), "[]");
    assert_eq!(expand("[$4][$9]", &g), "[][]");
    assert_eq!(expand("$0 $a $$ $", &g), "$0 $a $$ $");
    assert_eq!(expand("$$1", &g), "$one");
    assert_eq!(expand("$12", &g), "one2");
    assert_eq!(expand("$P(1) $1", &g), "$P(1) one");
    assert_eq!(expand("$1", &groups(&[])), "");

    let db = db_of(&lines(&[
        "Probe TCP X q|x|",
        "match a m|^(a+)(b+)?(c+)$| v/$1-$2-$3/",
    ]));
    let rule = &db[0].matchs[0];
    assert_eq!(rule.version("aabbc"), Some("v/aa-bb-c/".to_string()));
    assert_eq!(rule.version("ac"), Some("v/a--c/".to_string()));
    assert_eq!(rule.version("b"), None);
    assert_eq!(rule.version("xac"), None);
}

#[test]
fn check_returns_every_hit_in_order() {
    let db = db_of(&lines(&[
        "Probe TCP X q|x|",
        "match one m|^ab| v/1/",
        "match two m|^zz| v/2/",
        "match three m|b$| v/3/",
        "softmatch soft m|a| v/4/",
    ]));
    let hits = db[0].check("ab");
    assert_eq!(hits.len(), 2);
    assert_eq!(hits[0].service, "one");
    assert_eq!(hits[1].service, "three");
    assert!(db[0].check("q").is_empty());
    let soft = db[0].check("za");
    assert_eq!(soft.len(), 1);
    assert_eq!(soft[0].service, "soft");
}

#[test]
fn hard_match_comes_before_softmatch() {
    let db = db_of(&lines(&[
        "Probe TCP X q|x|",
        "softmatch soft m|^a| v/0/",
        "match one m|^ab| v/1/",
        "match two m|^a| v/2/",
    ]));
    assert_eq!(db[0].identify("abc").unwrap().service, "one");
    assert_eq!(db[0].identify("ac").unwrap().service, "two");
    let soft_only = db_of(&lines(&[
        "Probe TCP X q|x|",
        "softmatch soft m|^a| v/0/",
        "match one m|^b| v/1/",
    ]));
    assert_eq!(soft_only[0].identify("ac").unwrap().service, "soft");
    assert!(soft_only[0].identify("zz").is_none());
}

#[test]
fn exclude_parsing() {
    let ep = nsp_exclued_parser(&lines(&["Exclude T:9100,U:161-162,53"])).unwrap();
    assert_eq!(ep.tcp_ports, vec![9100]);
    assert_eq!(ep.udp_ports, vec![161, 162]);
    assert_eq!(ep.ports, vec![53]);
}

#[test]
fn exclude_reads_only_the_first_directive() {
    let ep = nsp_exclued_parser(&lines(&[
        "# comment",
        "Exclude 1-3, T:7 ",
        "Exclude 99",
    ]))
    .unwrap();
    assert_eq!(ep.ports, vec![1, 2, 3]);
    assert_eq!(ep.tcp_ports, vec![7]);
    assert!(ep.udp_ports.is_empty());

    let none = nsp_exclued_parser(&lines(&["Probe TCP NULL q||"])).unwrap();
    assert!(none.ports.is_empty() && none.tcp_ports.is_empty() && none.udp_ports.is_empty());
}

#[test]
fn exclude_rejects_malformed_items() {
    let err = nsp_exclued_parser(&lines(&["", "Exclude T:9100,U:x"])).unwrap_err();
    assert_eq!(err, ParseError { line: 1, kind: ParseErrorKind::BadNumber });
    let err = nsp_exclued_parser(&lines(&["Exclude 70000"])).unwrap_err();
    assert_eq!(err, ParseError { line: 0, kind: ParseErrorKind::BadNumber });
    let err = nsp_exclued_parser(&lines(&["Exclude"])).unwrap_err();
    assert_eq!(err, ParseError { line: 0, kind: ParseErrorKind::BadNumber });
    for bad in ["X:9", "T:80:90", "t:80", "TU:80", ":80", "T:", "U:1-2-3", "1-2-3", "T::80", "53,X:9"] {
        let err = nsp_exclued_parser(&lines(&[&format!("Exclude {}", bad)])).unwrap_err();
        assert_eq!(err, ParseError { line: 0, kind: ParseErrorKind::BadNumber }, "{:?}", bad);
    }
}

#[test]
fn port_lists() {
    assert_eq!(ports_parser("80"), Ok(vec![80]));
    assert_eq!(ports_parser("80, 443 ,8000-8003"), Ok(vec![80, 443, 8000, 8001, 8002, 8003]));
    assert_eq!(ports_parser("0,65535"), Ok(vec![0, 65535]));
    assert_eq!(ports_parser("65534-65535"), Ok(vec![65534, 65535]));
    assert_eq!(ports_parser("5-5"), Ok(vec![5]));
    assert_eq!(ports_parser("9-5"), Ok(vec![]));
    assert_eq!(ports_parser("+7"), Ok(vec![7]));
    assert_eq!(ports_parser("007"), Ok(vec![7]));
}

#[test]
fn port_lists_rejected() {
    for bad in [
        "", "80,", ",80", "65536", "-5", "5-", "a", "1 2", "8o", "+", "99999999999999999999",
        "1-2-3", "1--2", "-", "--", "1-2-", "80,1-2-3",
    ] {
        assert_eq!(ports_parser(bad), Err(ParseErrorKind::BadNumber), "{:?}", bad);
    }
}

#[test]
fn malformed_lines_are_reported() {
    let cases: [(&str, ParseErrorKind); 12] = [
        ("Probe TCP", ParseErrorKind::MissingField),
        ("Probe TCP NULL", ParseErrorKind::MissingField),
        ("Probe TCP NULL qxx", ParseErrorKind::MissingField),
        ("Probe SCTP NULL q||", ParseErrorKind::UnknownProtocol),
        ("match", ParseErrorKind::MissingField),
        ("match ssh", ParseErrorKind::MissingField),
        ("match ssh m|(| v/1/", ParseErrorKind::BadPattern),
        ("softmatch ssh m|a(?=b)|", ParseErrorKind::BadPattern),
        ("totalwaitms", ParseErrorKind::MissingField),
        ("rarity x", ParseErrorKind::BadNumber),
        ("tcpwrappedms 18446744073709551616", ParseErrorKind::BadNumber),
        ("ports 1,x", ParseErrorKind::BadNumber),
    ];
    for (line, kind) in cases {
        let e = parse_directive(line).unwrap_err();
        assert_eq!(e, kind, "{:?}", line);
        let (db, rejected) = nsp_parser(&lines(&["Probe TCP A q|a|", line, "rarity 4"]));
        assert_eq!(rejected, vec![ParseError { line: 1, kind }], "{:?}", line);
        assert_eq!(db.len(), 1, "{:?}", line);
        assert_eq!(db[0].probe.probename, "A");
        assert_eq!(db[0].rarity, Some(4));
    }
    assert!(matches!(parse_directive("totalwaitms 18446744073709551615"), Ok(Directive::Totalwaitms(u64::MAX))));
}

#[test]
fn other_lines_are_ignored() {
    for line in ["", "# match ssh m|(|", "Exclude T:1", "   ", "unknown directive", " match x m|(|"] {
        assert!(matches!(parse_directive(line), Ok(Directive::Other)), "{:?}", line);
    }
    let db = db_of(&lines(&["# only comments", "", "Exclude 53"]));
    assert!(db.is_empty());
}

#[test]
fn malformed_lines_are_recorded_and_skipped() {
    let text = lines(&[
        "Probe TCP A q|a|",
        "match bad m|(|",
        "match good m|^x| v/1/",
        "rarity nine",
        "rarity 9",
        "Probe SCTP B q|b|",
        "ports 1",
        "Probe UDP C q|c|",
    ]);
    let (db, rejected) = nsp_parser(&text);
    assert_eq!(
        rejected,
        vec![
            ParseError { line: 1, kind: ParseErrorKind::BadPattern },
            ParseError { line: 3, kind: ParseErrorKind::BadNumber },
            ParseError { line: 5, kind: ParseErrorKind::UnknownProtocol },
        ]
    );
    assert_eq!(db.len(), 2);
    assert_eq!(db[0].probe.probename, "A");
    assert_eq!(db[0].matchs.len(), 1);
    assert_eq!(db[0].matchs[0].service, "good");
    assert_eq!(db[0].rarity, Some(9));
    assert_eq!(db[0].ports, Some(vec![1]));
    assert_eq!(db[1].probe.probename, "C");
}

#[test]
fn lines_before_the_first_probe_go_to_the_first_block() {
    let db = db_of(&lines(&["rarity 3", "match a m|a|", "Probe TCP A q|a|", "Probe TCP B q|b|"]));
    assert_eq!(db.len(), 2);
    assert_eq!(db[0].rarity, Some(3));
    assert_eq!(db[0].matchs.len(), 1);
    assert_eq!(db[1].rarity, None);
    assert!(db[1].matchs.is_empty());
}

#[test]
fn later_directives_replace_earlier_ones() {
    let db = db_of(&lines(&["Probe TCP A q|a|", "ports 1", "ports 2,3", "rarity 1", "rarity 2"]));
    assert_eq!(db[0].ports, Some(vec![2, 3]));
    assert_eq!(db[0].rarity, Some(2));
}

#[test]
fn reparsing_gives_the_same_database() {
    let first = db_of(&sample());
    let second = db_of(&sample());
    assert_eq!(first.len(), second.len());
    for (a, b) in first.iter().zip(second.iter()) {
        assert_eq!(a.probe.probename, b.probe.probename);
        assert_eq!(a.probe.probestring, b.probe.probestring);
        assert_eq!(a.probe.protocol, b.probe.protocol);
        assert_eq!(a.probe.no_payload, b.probe.no_payload);
        assert_eq!(a.ports, b.ports);
        assert_eq!(a.sslports, b.sslports);
        assert_eq!(a.totalwaitms, b.totalwaitms);
        assert_eq!(a.tcpwrappedms, b.tcpwrappedms);
        assert_eq!(a.rarity, b.rarity);
        assert_eq!(a.fallback, b.fallback);
        assert_eq!(a.matchs.len(), b.matchs.len());
        for (m, n) in a.matchs.iter().zip(b.matchs.iter()) {
            assert_eq!(m.service, n.service);
            assert_eq!(m.pattern, n.pattern);
            assert_eq!(m.versioninfo, n.versioninfo);
            assert_eq!(m.re.as_str(), n.re.as_str());
        }
        assert_eq!(a.softmatchs.len(), b.softmatchs.len());
    }
}

#[test]
fn parser_is_fed_line_by_line() {
    let mut parser = Parser::new();
    for (i, line) in ["Probe TCP A q| a b |", "match x m|^x|", "bogus"].iter().enumerate() {
        parser = parser.feed(i, line);
    }
    let (db, rejected) = parser.finish();
    assert!(rejected.is_empty());
    assert_eq!(db.len(), 1);
    assert_eq!(db[0].probe.probestring, "a b");
}

#[test]
fn fallback_names_are_cut_at_spaces_and_commas() {
    let names = |line: &str| match parse_directive(line) {
        Ok(Directive::Fallback(names)) => names,
        other => panic!("{:?}", other),
    };
    assert_eq!(names("fallback GetRequest,GenericLines"), vec!["GetRequest", "GenericLines"]);
    assert_eq!(names("fallback GetRequest GenericLines"), vec!["GetRequest", "GenericLines"]);
    assert_eq!(names("fallback A,B C"), vec!["A", "B", "C"]);
    assert_eq!(names("fallback NULL"), vec!["NULL"]);
    assert_eq!(names("fallback"), Vec::<String>::new());
    assert_eq!(names("fallback "), vec![""]);
    assert_eq!(names("fallback A,"), vec!["A", ""]);
}

#[test]
fn fallbacks_are_tried_in_the_order_listed() {
    let db = db_of(&lines(&[
        "Probe TCP NULL q||",
        "match ssh m|^SSH| v/null/",
        "Probe TCP GetRequest q|GET / HTTP/1.0\\r\\n\\r\\n|",
        "match http m|^HTTP| v/get/",
        "softmatch any m|^.| v/soft/",
        "Probe TCP Other q|x|",
        "match ssh m|^SSH-2| v/other/",
        "match http m|^HTTP/1| v/other/",
        "Probe TCP Help q|HELP|",
        "match ftp m|^220| v/help/",
        "fallback Missing,Other,GetRequest NULL",
        "Probe TCP Alone q|y|",
        "match smtp m|^250|",
    ]));
    let hit = |index: usize, text: &str| identify_in(&db, index, text).map(|m| m.versioninfo);
    assert_eq!(hit(3, "220 ready"), Some("v/help/".to_string()));
    assert_eq!(hit(3, "SSH-2.0"), Some("v/other/".to_string()));
    assert_eq!(hit(3, "SSH-1.5"), Some("v/soft/".to_string()));
    assert_eq!(hit(3, "HTTP/1.1 200"), Some("v/other/".to_string()));
    assert_eq!(hit(3, "HTTP/2"), Some("v/get/".to_string()));
    assert_eq!(hit(3, ""), None);
    assert_eq!(hit(0, "SSH-2.0"), Some("v/null/".to_string()));
    assert_eq!(hit(0, "HTTP/1.1"), None);
    assert_eq!(hit(4, "220 x"), None);
    assert_eq!(hit(5, "220 x"), None);
}
