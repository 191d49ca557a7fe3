use dfw::normalize::{
    option_string_or_seq_string, single_or_seq_string_or_struct, string_or_seq_string,
    string_or_struct, struct_or_seq_struct,
};
use dfw::{
    ChainPolicy, ContainerToContainerRule, Decode, DecodeError, ErrorKind, Expected, ExposePort,
    IntErrorKind, PortError, RuleVerdict, Table, Value, WiderWorldToContainerRule, DFW,
};

fn s(x: &str) -> Value {
    Value::Str(x.to_string())
}

fn table(entries: Vec<(&str, Value)>) -> Value {
    Value::Table(entries.into_iter().map(|(k, v)| (k.to_string(), v)).collect())
}

fn port(h: u16, c: Option<u16>, f: &str) -> ExposePort {
    ExposePort { host_port: h, container_port: c, family: f.to_string() }
}

fn err(path: &[&str], kind: ErrorKind) -> DecodeError {
    DecodeError { path: path.iter().map(|p| p.to_string()).collect(), kind }
}

fn strings(xs: &[&str]) -> Vec<String> {
    xs.iter().map(|x| x.to_string()).collect()
}

fn port_record(h: u16, c: u16) -> Value {
    table(vec![
        ("host_port", Value::Integer(h as i64)),
        ("container_port", Value::Integer(c as i64)),
    ])
}

fn port_back_to_record(p: &ExposePort) -> Value {
    let mut entries = vec![("host_port", Value::Integer(p.host_port as i64))];
    if let Some(c) = p.container_port {
        entries.push(("container_port", Value::Integer(c as i64)));
    }
    entries.push(("family", s(&p.family)));
    table(entries)
}

#[test]
fn grammar_and_record_encodings_agree() {
    let record = table(vec![
        ("host_port", Value::Integer(443)),
        ("container_port", Value::Integer(8443)),
        ("family", s("tcp")),
    ]);
    let decoded = ExposePort::decode(&record).unwrap();
    assert_eq!(ExposePort::from_str("443:8443/tcp"), Ok(decoded.clone()));
    assert_eq!(decoded, port(443, Some(8443), "tcp"));
}

#[test]
fn record_encodings_fill_defaults() {
    let only_host = table(vec![("host_port", Value::Integer(8080))]);
    assert_eq!(ExposePort::decode(&only_host), Ok(port(8080, None, "tcp")));
    assert_eq!(ExposePort::decode(&only_host).ok(), ExposePort::from_str("8080").ok());
    let with_family = table(vec![("host_port", Value::Integer(53)), ("family", s("udp"))]);
    assert_eq!(ExposePort::decode(&with_family).unwrap(), ExposePort::from_str("53/udp").unwrap());
    let both = port_record(80, 8080);
    assert_eq!(ExposePort::decode(&both).unwrap(), ExposePort::from_str("80:8080").unwrap());
}

#[test]
fn port_record_requires_host_port() {
    let record = table(vec![("container_port", Value::Integer(80))]);
    assert_eq!(
        ExposePort::decode(&record),
        Err(err(&[], ErrorKind::MissingField("host_port".to_string())))
    );
}

#[test]
fn port_record_rejects_out_of_range_and_wrong_types() {
    let big = table(vec![("host_port", Value::Integer(70000))]);
    assert_eq!(
        ExposePort::decode(&big),
        Err(err(&["host_port"], ErrorKind::InvalidValue(Expected::PortNumber)))
    );
    let text = table(vec![("host_port", s("80"))]);
    assert_eq!(
        ExposePort::decode(&text),
        Err(err(&["host_port"], ErrorKind::InvalidType(Expected::Integer)))
    );
    let fam = table(vec![("host_port", Value::Integer(80)), ("family", Value::Integer(6))]);
    assert_eq!(
        ExposePort::decode(&fam),
        Err(err(&["family"], ErrorKind::InvalidType(Expected::Str)))
    );
}

#[test]
fn port_list_takes_a_union_of_shapes() {
    let v = Value::Array(vec![Value::Integer(80), s("53/udp"), port_record(443, 8443)]);
    assert_eq!(
        single_or_seq_string_or_struct(&v),
        Ok(vec![port(80, None, "tcp"), port(53, None, "udp"), port(443, Some(8443), "tcp")])
    );
}

#[test]
fn port_list_takes_single_items() {
    assert_eq!(single_or_seq_string_or_struct(&Value::Integer(80)), Ok(vec![port(80, None, "tcp")]));
    assert_eq!(single_or_seq_string_or_struct(&s("53/udp")), Ok(vec![port(53, None, "udp")]));
    assert_eq!(
        single_or_seq_string_or_struct(&port_record(8080, 80)),
        Ok(vec![port(8080, Some(80), "tcp")])
    );
    assert_eq!(
        single_or_seq_string_or_struct(&Value::Array(vec![Value::Integer(80), Value::Integer(443)])),
        Ok(vec![port(80, None, "tcp"), port(443, None, "tcp")])
    );
    assert_eq!(single_or_seq_string_or_struct(&Value::Array(vec![])), Ok(vec![]));
}

#[test]
fn normalized_port_list_comes_back_unchanged() {
    let first = single_or_seq_string_or_struct(&Value::Array(vec![
        Value::Integer(80),
        s("53/udp"),
        port_record(443, 8443),
    ]))
    .unwrap();
    let again = Value::Array(first.iter().map(port_back_to_record).collect());
    assert_eq!(single_or_seq_string_or_struct(&again), Ok(first));
}

#[test]
fn port_list_rejects_other_shapes() {
    assert_eq!(
        single_or_seq_string_or_struct(&Value::Boolean(true)),
        Err(err(&[], ErrorKind::InvalidType(Expected::PortOrPorts)))
    );
    assert_eq!(
        single_or_seq_string_or_struct(&Value::Array(vec![Value::Array(vec![])])),
        Err(err(&[], ErrorKind::InvalidType(Expected::PortItem)))
    );
    assert_eq!(
        string_or_struct(&Value::Other),
        Err(err(&[], ErrorKind::InvalidType(Expected::PortItem)))
    );
}

#[test]
fn integer_ports_are_read_as_their_text() {
    assert_eq!(
        string_or_struct(&Value::Integer(70000)),
        Err(err(
            &[],
            ErrorKind::Port(PortError::InvalidPort {
                input: "70000".to_string(),
                token: "70000".to_string(),
                kind: IntErrorKind::PosOverflow,
            })
        ))
    );
    assert_eq!(
        string_or_struct(&Value::Integer(-5)),
        Err(err(
            &[],
            ErrorKind::Port(PortError::InvalidPort {
                input: "-5".to_string(),
                token: "-5".to_string(),
                kind: IntErrorKind::InvalidDigit,
            })
        ))
    );
}

#[test]
fn port_list_reports_the_first_bad_item() {
    let v = Value::Array(vec![s("80"), s("80:90:100"), s("notaport")]);
    assert_eq!(
        single_or_seq_string_or_struct(&v),
        Err(err(&[], ErrorKind::Port(PortError::InvalidFormat { input: "80:90:100".to_string() })))
    );
}

#[test]
fn scalar_list_takes_one_string_or_many() {
    assert_eq!(string_or_seq_string(&s("eth0")), Ok(strings(&["eth0"])));
    let v = Value::Array(vec![s("eth0"), s("eth1")]);
    assert_eq!(string_or_seq_string(&v), Ok(strings(&["eth0", "eth1"])));
    let dup = Value::Array(vec![s("a"), s("a")]);
    assert_eq!(option_string_or_seq_string(&dup), Ok(Some(strings(&["a", "a"]))));
}

#[test]
fn scalar_list_rejects_other_shapes() {
    assert_eq!(
        string_or_seq_string(&Value::Integer(1)),
        Err(err(&[], ErrorKind::InvalidType(Expected::StringOrStrings)))
    );
    assert_eq!(
        string_or_seq_string(&table(vec![])),
        Err(err(&[], ErrorKind::InvalidType(Expected::StringOrStrings)))
    );
    assert_eq!(
        string_or_seq_string(&Value::Array(vec![s("a"), Value::Array(vec![])])),
        Err(err(&[], ErrorKind::InvalidType(Expected::Str)))
    );
}

#[test]
fn single_table_and_one_element_sequence_agree() {
    let record = || {
        table(vec![("name", s("filter")), ("chains", Value::Array(vec![s("input"), s("forward")]))])
    };
    let single = struct_or_seq_struct::<Table>(&record());
    let listed = struct_or_seq_struct::<Table>(&Value::Array(vec![record()]));
    let expected = Table { name: "filter".to_string(), chains: strings(&["input", "forward"]) };
    assert_eq!(single, Ok(vec![expected]));
    assert_eq!(single, listed);
}

#[test]
fn record_list_rejects_strings() {
    assert_eq!(
        struct_or_seq_struct::<Table>(&s("filter")),
        Err(err(&[], ErrorKind::InvalidType(Expected::TableOrTables)))
    );
}

#[test]
fn record_list_reports_the_failing_element() {
    let good = table(vec![("name", s("a")), ("chains", Value::Array(vec![]))]);
    let bad = table(vec![("name", s("b"))]);
    assert_eq!(
        struct_or_seq_struct::<Table>(&Value::Array(vec![good, bad])),
        Err(err(&[], ErrorKind::MissingField("chains".to_string())))
    );
}

#[test]
fn undeclared_key_fails_whatever_else_is_valid() {
    let rule = table(vec![
        ("network", s("common")),
        ("src_container", s("a")),
        ("dst_container", s("b")),
        ("matches", s("tcp dport 22")),
        ("verdict", s("accept")),
        ("bogus", Value::Boolean(true)),
    ]);
    assert_eq!(
        ContainerToContainerRule::decode(&rule),
        Err(err(&[], ErrorKind::UnknownField("bogus".to_string())))
    );
    let port_rec = table(vec![("host_port", Value::Integer(80)), ("protocol", s("tcp"))]);
    assert_eq!(
        ExposePort::decode(&port_rec),
        Err(err(&[], ErrorKind::UnknownField("protocol".to_string())))
    );
}

#[test]
fn alias_is_accepted_and_conflicts_are_duplicates() {
    let with_alias = table(vec![("network", s("n")), ("action", s("reject"))]);
    assert_eq!(
        ContainerToContainerRule::decode(&with_alias),
        Ok(ContainerToContainerRule {
            network: "n".to_string(),
            src_container: None,
            dst_container: None,
            matches: None,
            verdict: RuleVerdict::Reject,
        })
    );
    let both = table(vec![("network", s("n")), ("verdict", s("drop")), ("action", s("accept"))]);
    assert_eq!(
        ContainerToContainerRule::decode(&both),
        Err(err(&[], ErrorKind::DuplicateField("action".to_string())))
    );
}

#[test]
fn unknown_verdict_is_an_invalid_value() {
    let rule = table(vec![("network", s("n")), ("verdict", s("allow"))]);
    assert_eq!(
        ContainerToContainerRule::decode(&rule),
        Err(err(&["verdict"], ErrorKind::InvalidValue(Expected::Verdict)))
    );
}

#[test]
fn source_cidr_alias_fills_the_v4_field() {
    let rule = table(vec![
        ("network", s("n")),
        ("dst_container", s("c")),
        ("expose_port", Value::Integer(80)),
        ("source_cidr", s("127.0.0.0/8")),
        ("source_cidr_v6", Value::Array(vec![s("fe80::/10"), s("2001:db8::/32")])),
    ]);
    let decoded = WiderWorldToContainerRule::decode(&rule).unwrap();
    assert_eq!(decoded.source_cidr_v4, Some(strings(&["127.0.0.0/8"])));
    assert_eq!(decoded.source_cidr_v6, Some(strings(&["fe80::/10", "2001:db8::/32"])));
    assert_eq!(decoded.expose_port, vec![port(80, None, "tcp")]);
}

#[test]
fn missing_ports_are_reported() {
    let rule = table(vec![("network", s("n")), ("dst_container", s("c"))]);
    assert_eq!(
        WiderWorldToContainerRule::decode(&rule),
        Err(err(&[], ErrorKind::MissingField("expose_port".to_string())))
    );
}

#[test]
fn whole_configuration_decodes() {
    let doc = table(vec![
        (
            "defaults",
            table(vec![
                ("custom_tables", table(vec![
                    ("name", s("filter")),
                    ("chains", Value::Array(vec![s("input"), s("forward")])),
                ])),
                ("external_network_interfaces", s("eth0")),
            ]),
        ),
        ("initialization", table(vec![("rules", Value::Array(vec![s("add table inet custom")]))])),
        (
            "container_to_container",
            table(vec![
                ("default_policy", s("drop")),
                ("rules", Value::Array(vec![table(vec![
                    ("network", s("common_network")),
                    ("src_container", s("container_a")),
                    ("dst_container", s("container_b")),
                    ("verdict", s("accept")),
                ])])),
            ]),
        ),
        ("container_to_wider_world", table(vec![("default_policy", s("accept"))])),
        (
            "wider_world_to_container",
            table(vec![("rules", Value::Array(vec![table(vec![
                ("network", s("common_network")),
                ("dst_container", s("container_a")),
                ("expose_port", Value::Array(vec![Value::Integer(80), Value::Integer(443)])),
            ])]))]),
        ),
        (
            "container_dnat",
            table(vec![("rules", Value::Array(vec![table(vec![
                ("src_network", s("common_network")),
                ("src_container", s("container_a")),
                ("dst_network", s("other_network")),
                ("dst_container", s("container_c")),
                ("expose_port", table(vec![
                    ("host_port", Value::Integer(8080)),
                    ("container_port", Value::Integer(80)),
                    ("family", s("tcp")),
                ])),
            ])]))]),
        ),
    ]);
    let dfw = DFW::decode(&doc).unwrap();
    let defaults = dfw.defaults.unwrap();
    assert_eq!(
        defaults.custom_tables,
        Some(vec![Table { name: "filter".to_string(), chains: strings(&["input", "forward"]) }])
    );
    assert_eq!(defaults.external_network_interfaces, Some(strings(&["eth0"])));
    assert_eq!(defaults.default_docker_bridge_to_host_policy, ChainPolicy::Accept);
    assert_eq!(dfw.initialization.unwrap().rules, Some(strings(&["add table inet custom"])));
    let ctc = dfw.container_to_container.unwrap();
    assert_eq!(ctc.default_policy, ChainPolicy::Drop);
    assert_eq!(ctc.rules.unwrap()[0].verdict, RuleVerdict::Accept);
    assert_eq!(dfw.container_to_wider_world.unwrap().rules, None);
    assert!(dfw.container_to_host.is_none());
    let wwtc = dfw.wider_world_to_container.unwrap().rules.unwrap();
    assert_eq!(wwtc[0].expose_port, vec![port(80, None, "tcp"), port(443, None, "tcp")]);
    let dnat = dfw.container_dnat.unwrap().rules.unwrap();
    assert_eq!(dnat[0].expose_port, vec![port(8080, Some(80), "tcp")]);
    assert_eq!(dnat[0].src_network, Some("common_network".to_string()));
}

#[test]
fn empty_configuration_has_no_sections() {
    let dfw = DFW::decode(&table(vec![])).unwrap();
    assert!(dfw.defaults.is_none() && dfw.initialization.is_none() && dfw.container_dnat.is_none());
}

#[test]
fn nested_errors_carry_their_path() {
    let doc = table(vec![(
        "wider_world_to_container",
        table(vec![("rules", Value::Array(vec![table(vec![
            ("network", s("n")),
            ("dst_container", s("c")),
            ("expose_port", s("80:90:100")),
        ])]))]),
    )]);
    assert_eq!(
        DFW::decode(&doc),
        Err(err(
            &["wider_world_to_container", "rules", "expose_port"],
            ErrorKind::Port(PortError::InvalidFormat { input: "80:90:100".to_string() })
        ))
    );
    let unknown_section = table(vec![("container_to_everything", table(vec![]))]);
    assert_eq!(
        DFW::decode(&unknown_section),
        Err(err(&[], ErrorKind::UnknownField("container_to_everything".to_string())))
    );
    let bad_policy = table(vec![("defaults", table(vec![(
        "default_docker_bridge_to_host_policy",
        s("reject"),
    )]))]);
    assert_eq!(
        DFW::decode(&bad_policy),
        Err(err(
            &["defaults", "default_docker_bridge_to_host_policy"],
            ErrorKind::InvalidValue(Expected::Policy)
        ))
    );
}

#[test]
fn wrong_node_for_a_record_is_a_shape_error() {
    assert_eq!(DFW::decode(&Value::Integer(1)), Err(err(&[], ErrorKind::InvalidType(Expected::Table))));
    let rules_not_array = table(vec![("container_dnat", table(vec![("rules", s("x"))]))]);
    assert_eq!(
        DFW::decode(&rules_not_array),
        Err(err(&["container_dnat", "rules"], ErrorKind::InvalidType(Expected::Array)))
    );
}
