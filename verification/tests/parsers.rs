use securitysmith::parsers::zap::{ZapAlert, ZapInstance, ZapJsonParser, ZapReport, ZapSite};
use securitysmith::import::{parse_csv, parse_nessus};
use securitysmith::parsers::burp::BurpParser;
use securitysmith::parsers::csv_import::CsvParser;
use securitysmith::parsers::nessus::NessusParser;
use securitysmith::parsers::nmap::NmapParser;
use securitysmith::parsers::nuclei::NucleiParser;
use securitysmith::parsers::{CsvColumnMapping, FindingParser};

#[test]
fn test_nessus_parsing() {
    let xml = r#"<?xml version="1.0"?>
<NessusClientData>
<Report>
<ReportItem port="443" pluginName="SSL Weak Cipher" severity="2">
<plugin_output>Weak ciphers supported</plugin_output>
<solution>Disable weak ciphers</solution>
<synopsis>The remote server supports weak SSL ciphers.</synopsis>
</ReportItem>
</Report>
</NessusClientData>
"#;
    let findings = NessusParser.parse(xml.as_bytes()).unwrap();
    assert_eq!(findings.len(), 1);
    assert_eq!(findings[0].title, "SSL Weak Cipher");
    assert_eq!(findings[0].severity, "medium");
}

#[test]
fn test_burp_parsing() {
    let xml = r#"<issues>
<issue>
<name>XSS</name>
<severity>High</severity>
<host>https://example.com</host>
<path>/search</path>
<issueBackground>Reflected XSS found.</issueBackground>
<issueDetail>The search parameter reflects input.</issueDetail>
</issue>
</issues>
"#;
    let findings = BurpParser.parse(xml.as_bytes()).unwrap();
    assert_eq!(findings.len(), 1);
    assert_eq!(findings[0].title, "XSS");
    assert_eq!(findings[0].severity, "high");
}

#[test]
fn test_nmap_parsing() {
    let xml = r#"<?xml version="1.0"?>
<nmaprun>
<host>
<address addr="192.168.1.1"/>
<ports>
<port portid="80" protocol="tcp">
<state state="open"/>
</port>
</ports>
</host>
</nmaprun>
"#;
    let findings = NmapParser.parse(xml.as_bytes()).unwrap();
    assert_eq!(findings.len(), 1);
    assert!(findings[0].title.contains("80/tcp"));
    assert_eq!(findings[0].severity, "informational");
}

#[test]
fn test_nuclei_parsing() {
    let line = r#"{"template-id":"test","info":{"name":"Test vuln","severity":"high","description":"desc"},"host":"https://target.com","matched-at":"/api/v1"}"#;
    let findings = NucleiParser.parse(line.as_bytes()).unwrap();
    assert_eq!(findings.len(), 1);
    assert_eq!(findings[0].severity, "high");
}

#[test]
fn test_csv_parsing() {
    let csv = "Title,Severity,Description\nXSS,high,Reflected XSS\nSQLi,critical,Injection\n";
    let mapping = CsvColumnMapping {
        title: 0,
        severity: 1,
        description: Some(2),
        remediation: None,
        affected_url: None,
    };
    let findings = CsvParser::new(mapping).parse(csv.as_bytes()).unwrap();
    assert_eq!(findings.len(), 2);
    assert_eq!(findings[0].severity, "high");
}

#[test]
fn parse_nessus_basic() {
    let xml = r#"<?xml version="1.0"?>
<NessusClientData_v2>
  <Report>
    <ReportHost name="192.168.1.1">
      <HostProperties>
        <tag name="host-fqdn">test.local</tag>
      </HostProperties>
      <ReportItem port="443" svc_name="www" protocol="tcp" severity="3" pluginID="12345" pluginName="SSL Certificate Weak">
        <description>The SSL certificate uses weak ciphers.</description>
      </ReportItem>
      <ReportItem port="80" svc_name="www" protocol="tcp" severity="2" pluginID="12346" pluginName="HTTP Methods">
        <description>HTTP methods allowed.</description>
      </ReportItem>
    </ReportHost>
  </Report>
</NessusClientData_v2>"#;
    let findings = parse_nessus(xml).unwrap();
    assert_eq!(findings.len(), 2);
    assert_eq!(findings[0].title, "SSL Certificate Weak");
    assert_eq!(findings[0].severity, "high");
    assert!(findings[0].description.contains("weak ciphers"));
    assert_eq!(findings[1].severity, "medium");
}

#[test]
fn parse_nessus_empty() {
    let xml = r#"<?xml version="1.0"?><NessusClientData_v2></NessusClientData_v2>"#;
    let findings = parse_nessus(xml).unwrap();
    assert!(findings.is_empty());
}

#[test]
fn parse_nessus_malformed() {
    let xml = "not xml at all";
    let result = parse_nessus(xml);
    assert!(result.is_ok());
}

#[test]
fn parse_csv_basic() {
    let csv_content = "title,severity,description\n\
        SQL Injection,high,Found SQL injection in login form\n\
        XSS,medium,Reflected XSS in search parameter";
    let findings = parse_csv(csv_content, 0, 1).unwrap();
    assert_eq!(findings.len(), 2);
    assert_eq!(findings[0].title, "SQL Injection");
    assert_eq!(findings[0].severity, "high");
}

#[test]
fn parse_csv_severity_normalization() {
    let csv_content = "title,severity\n\
        Test1,crit\n\
        Test2,3\n\
        Test3,moderate";
    let findings = parse_csv(csv_content, 0, 1).unwrap();
    assert_eq!(findings[0].severity, "critical");
    assert_eq!(findings[1].severity, "high");
    assert_eq!(findings[2].severity, "medium");
}

#[test]
fn parse_csv_skips_empty_titles() {
    let csv_content = "title,severity\n\
        ,high\n\
        Valid,low";
    let findings = parse_csv(csv_content, 0, 1).unwrap();
    assert_eq!(findings.len(), 1);
    assert_eq!(findings[0].title, "Valid");
}

#[test]
fn zap_report_findings() {
    let report = ZapReport {
        site: vec![ZapSite {
            alerts: vec![ZapAlert {
                name: "X-Frame-Options Header Not Set".to_string(),
                riskdesc: "Medium (Medium)".to_string(),
                desc: "Clickjacking".to_string(),
                solution: "Set the header".to_string(),
                instances: vec![ZapInstance { uri: "https://t/".to_string(), method: "GET".to_string() }],
            }],
        }],
    };
    let f = ZapJsonParser.findings_of(&report);
    assert_eq!(f.len(), 1);
    assert_eq!(f[0].title, "X-Frame-Options Header Not Set");
    assert_eq!(f[0].severity, "medium");
    assert_eq!(f[0].affected_endpoints[0].path, "https://t/");
    assert_eq!(f[0].source_tool, "OWASP ZAP");
}

#[test]
fn nuclei_skips_blank_and_reports_bad_lines() {
    let ok = "\n{\"info\":{\"name\":\"A\",\"severity\":\"low\"},\"host\":\"h\"}\n\n";
    let f = NucleiParser.parse(ok.as_bytes()).unwrap();
    assert_eq!(f.len(), 1);
    assert_eq!(f[0].title, "A");
    assert!(NucleiParser.parse(b"not json").is_err());
}

#[test]
fn burp_keeps_host_and_path() {
    let xml = "<issues><issue><name>SQLi</name><severity>Medium</severity><host>https://h</host><path>/a</path></issue></issues>";
    let f = BurpParser.parse(xml.as_bytes()).unwrap();
    assert_eq!(f[0].severity, "medium");
    assert!(f[0].affected_endpoints.iter().any(|e| e.path.contains("/a")));
}

#[test]
fn xml_errors_reported() {
    assert!(NessusParser.parse(b"<a><b></a>").is_err() || NessusParser.parse(b"<a><b></a>").unwrap().is_empty());
    assert!(CsvParser::new(CsvColumnMapping { title: 5, severity: 1, description: None, remediation: None, affected_url: None })
        .parse(b"a,b\n1,2\n")
        .is_err());
}

#[test]
fn parsers_name_their_formats() {
    assert_eq!(BurpParser.format_name(), "burp");
    assert_eq!(NessusParser.format_name(), "nessus");
    assert_eq!(NmapParser.format_name(), "nmap");
    assert_eq!(NucleiParser.format_name(), "nuclei");
    let m = CsvColumnMapping { title: 0, severity: 1, description: None, remediation: None, affected_url: None };
    assert_eq!(CsvParser::new(m).format_name(), "csv");
}

fn parsed_with(title: &str, paths: &[&str], dup: bool) -> securitysmith::parsers::ParsedFinding {
    securitysmith::parsers::ParsedFinding {
        title: title.to_string(),
        severity: "high".to_string(),
        overview: String::new(),
        summary: String::new(),
        affected_endpoints: paths
            .iter()
            .map(|p| securitysmith::parsers::AffectedEndpoint {
                method: "GET".to_string(),
                path: p.to_string(),
                description: String::new(),
            })
            .collect(),
        remediation_items: vec![],
        references: vec![],
        source_tool: "burp".to_string(),
        source_id: None,
        is_duplicate: dup,
        duplicate_of: None,
    }
}

#[test]
fn duplicates_need_title_and_endpoint() {
    let existing = vec![
        ("Stored XSS".to_string(), vec!["/a".to_string(), "/b".to_string()]),
        ("stored xss".to_string(), vec!["/b".to_string()]),
        ("SQLi".to_string(), vec!["/c".to_string()]),
    ];
    let mut fs = vec![
        parsed_with("STORED XSS", &["/b"], false),
        parsed_with("Stored XSS", &["/z"], false),
        parsed_with("SQLi", &["/x", "/c"], false),
        parsed_with("Other", &["/a"], true),
    ];
    let n = securitysmith::commands::findings_import::mark_duplicates(&existing, &mut fs);
    assert_eq!(n, 3);
    assert!(fs[0].is_duplicate);
    assert!(!fs[1].is_duplicate);
    assert!(fs[2].is_duplicate);
    assert!(fs[3].is_duplicate);
    assert_eq!(fs[1].affected_endpoints[0].path, "/z");
}
