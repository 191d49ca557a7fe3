//! The configuration tree and how each record decodes from a document.
//!
//! Every record is closed: a key it does not declare fails. Keys are matched
//! first, in document order, then fields are read in declaration order; the
//! first failure decides. A field named both directly and through its alias
//! is a duplicate and fails.

use vstd::prelude::*;
use crate::decode::{
    Decode, DecodeError, DecodeErrorView, ErrorKind, ErrorKindView, Expected, error_at, fault,
    gather, gather_fields, key_slot, law_undeclared_key_rejected, lemma_gather_slots, nest, opt_model, optional, required, same_text,
    schema_ok, slot_ok, spec_optional, spec_required, under,
};
use crate::normalize::{
    option_string_or_seq_string, option_struct_or_seq_struct, single_or_seq_string_or_struct,
    spec_port_list, spec_string_list, spec_struct_list,
};
use crate::port::{ExposePort, PortSpec};
use crate::value::Value;

verus! {

/// What happens to matched traffic.
#[derive(Clone, Copy, Debug, PartialEq, Eq, Hash, Structural)]
pub enum RuleVerdict {
    Accept,
    Drop,
    Reject,
}

/// What a chain does with traffic that no rule matched.
#[derive(Clone, Copy, Debug, PartialEq, Eq, Hash, Default, Structural)]
pub enum ChainPolicy {
    #[default]
    Accept,
    Drop,
}

impl Decode for RuleVerdict {
    type Model = RuleVerdict;

    open spec fn model(&self) -> RuleVerdict {
        *self
    }

    open spec fn spec_decode(v: Value) -> Result<RuleVerdict, DecodeErrorView> {
        match v {
            Value::Str(s) => if s@ == "accept"@ {
                Ok(RuleVerdict::Accept)
            } else if s@ == "drop"@ {
                Ok(RuleVerdict::Drop)
            } else if s@ == "reject"@ {
                Ok(RuleVerdict::Reject)
            } else {
                fault(ErrorKindView::InvalidValue(Expected::Verdict))
            },
            _ => fault(ErrorKindView::InvalidType(Expected::Verdict)),
        }
    }

    fn decode(v: &Value) -> (r: Result<RuleVerdict, DecodeError>) {
        match v {
            Value::Str(s) => if same_text(s.as_str(), "accept") {
                Ok(RuleVerdict::Accept)
            } else if same_text(s.as_str(), "drop") {
                Ok(RuleVerdict::Drop)
            } else if same_text(s.as_str(), "reject") {
                Ok(RuleVerdict::Reject)
            } else {
                Err(error_at(ErrorKind::InvalidValue(Expected::Verdict)))
            },
            _ => Err(error_at(ErrorKind::InvalidType(Expected::Verdict))),
        }
    }
}

impl Decode for ChainPolicy {
    type Model = ChainPolicy;

    open spec fn model(&self) -> ChainPolicy {
        *self
    }

    open spec fn spec_decode(v: Value) -> Result<ChainPolicy, DecodeErrorView> {
        match v {
            Value::Str(s) => if s@ == "accept"@ {
                Ok(ChainPolicy::Accept)
            } else if s@ == "drop"@ {
                Ok(ChainPolicy::Drop)
            } else {
                fault(ErrorKindView::InvalidValue(Expected::Policy))
            },
            _ => fault(ErrorKindView::InvalidType(Expected::Policy)),
        }
    }

    fn decode(v: &Value) -> (r: Result<ChainPolicy, DecodeError>) {
        match v {
            Value::Str(s) => if same_text(s.as_str(), "accept") {
                Ok(ChainPolicy::Accept)
            } else if same_text(s.as_str(), "drop") {
                Ok(ChainPolicy::Drop)
            } else {
                Err(error_at(ErrorKind::InvalidValue(Expected::Policy)))
            },
            _ => Err(error_at(ErrorKind::InvalidType(Expected::Policy))),
        }
    }
}

/// An optional field that takes one string or a sequence of strings.
pub open spec fn spec_opt_strings(
    es: Seq<(String, Value)>,
    slot: Option<usize>,
    name: Seq<char>,
) -> Result<Option<Seq<Seq<char>>>, DecodeErrorView> {
    match slot {
        None => Ok(None),
        Some(i) => match under(name, spec_string_list(es[i as int].1)) {
            Ok(m) => Ok(Some(m)),
            Err(e) => Err(e),
        },
    }
}

fn opt_strings(es: &Vec<(String, Value)>, slot: Option<usize>, name: &str) -> (r: Result<
    Option<Vec<String>>,
    DecodeError,
>)
    requires
        slot_ok(es@, slot),
    ensures
        match spec_opt_strings(es@, slot, name@) {
            Ok(m) => r matches Ok(x) && opt_model(x) == m,
            Err(e) => r matches Err(x) && x@ == e,
        },
{
    match slot {
        None => Ok(None),
        Some(i) => match option_string_or_seq_string(&es[i].1) {
            Ok(x) => Ok(x),
            Err(e) => Err(nest(name, e)),
        },
    }
}

/// An optional field that takes one table reference or a sequence of them.
pub open spec fn spec_opt_tables(
    es: Seq<(String, Value)>,
    slot: Option<usize>,
    name: Seq<char>,
) -> Result<Option<Seq<TableModel>>, DecodeErrorView> {
    match slot {
        None => Ok(None),
        Some(i) => match under(name, spec_struct_list::<Table>(es[i as int].1)) {
            Ok(m) => Ok(Some(m)),
            Err(e) => Err(e),
        },
    }
}

fn opt_tables(es: &Vec<(String, Value)>, slot: Option<usize>, name: &str) -> (r: Result<
    Option<Vec<Table>>,
    DecodeError,
>)
    requires
        slot_ok(es@, slot),
    ensures
        match spec_opt_tables(es@, slot, name@) {
            Ok(m) => r matches Ok(x) && opt_model(x) == m,
            Err(e) => r matches Err(x) && x@ == e,
        },
{
    match slot {
        None => Ok(None),
        Some(i) => match option_struct_or_seq_struct::<Table>(&es[i].1) {
            Ok(x) => Ok(x),
            Err(e) => Err(nest(name, e)),
        },
    }
}

/// A required field that takes ports in any of their encodings.
pub open spec fn spec_req_ports(
    es: Seq<(String, Value)>,
    slot: Option<usize>,
    name: Seq<char>,
) -> Result<Seq<PortSpec>, DecodeErrorView> {
    match slot {
        None => fault(ErrorKindView::MissingField(name)),
        Some(i) => under(name, spec_port_list(es[i as int].1)),
    }
}

fn req_ports(es: &Vec<(String, Value)>, slot: Option<usize>, name: &str) -> (r: Result<
    Vec<ExposePort>,
    DecodeError,
>)
    requires
        slot_ok(es@, slot),
    ensures
        match spec_req_ports(es@, slot, name@) {
            Ok(m) => r matches Ok(x) && x.model() == m,
            Err(e) => r matches Err(x) && x@ == e,
        },
{
    match slot {
        None => Err(error_at(ErrorKind::MissingField(String::from_str(name)))),
        Some(i) => match single_or_seq_string_or_struct(&es[i].1) {
            Ok(x) => Ok(x),
            Err(e) => Err(nest(name, e)),
        },
    }
}

/// A chain policy that is `accept` when absent.
pub open spec fn spec_policy_or_accept(
    es: Seq<(String, Value)>,
    slot: Option<usize>,
    name: Seq<char>,
) -> Result<ChainPolicy, DecodeErrorView> {
    match slot {
        None => Ok(ChainPolicy::Accept),
        Some(i) => under(name, ChainPolicy::spec_decode(es[i as int].1)),
    }
}

fn policy_or_accept(es: &Vec<(String, Value)>, slot: Option<usize>, name: &str) -> (r: Result<
    ChainPolicy,
    DecodeError,
>)
    requires
        slot_ok(es@, slot),
    ensures
        match spec_policy_or_accept(es@, slot, name@) {
            Ok(m) => r == Ok::<ChainPolicy, DecodeError>(m),
            Err(e) => r matches Err(x) && x@ == e,
        },
{
    match slot {
        None => Ok(ChainPolicy::Accept),
        Some(i) => match ChainPolicy::decode(&es[i].1) {
            Ok(x) => Ok(x),
            Err(e) => Err(nest(name, e)),
        },
    }
}

/// The complete configuration: every section is optional.
#[derive(Clone, Debug, PartialEq, Eq)]
pub struct DFW {
    /// The `defaults` section.
    pub defaults: Option<Defaults>,
    /// The `initialization` section.
    pub initialization: Option<Initialization>,
    /// The `container_to_container` section.
    pub container_to_container: Option<ContainerToContainer>,
    /// The `container_to_wider_world` section.
    pub container_to_wider_world: Option<ContainerToWiderWorld>,
    /// The `container_to_host` section.
    pub container_to_host: Option<ContainerToHost>,
    /// The `wider_world_to_container` section.
    pub wider_world_to_container: Option<WiderWorldToContainer>,
    /// The `container_dnat` section.
    pub container_dnat: Option<ContainerDNAT>,
}

/// What a [`DFW`] holds.
pub struct DFWModel {
    pub defaults: Option<DefaultsModel>,
    pub initialization: Option<InitializationModel>,
    pub container_to_container: Option<ContainerToContainerModel>,
    pub container_to_wider_world: Option<ContainerToWiderWorldModel>,
    pub container_to_host: Option<ContainerToHostModel>,
    pub wider_world_to_container: Option<WiderWorldToContainerModel>,
    pub container_dnat: Option<ContainerDNATModel>,
}

/// The keys a `DFW` table accepts and the field each one fills.
pub open spec fn dfw_keys() -> Seq<(&'static str, usize)> {
    seq![
        ("defaults", 0usize),
        ("initialization", 1usize),
        ("container_to_container", 2usize),
        ("container_to_wider_world", 3usize),
        ("container_to_host", 4usize),
        ("wider_world_to_container", 5usize),
        ("container_dnat", 6usize),
    ]
}

fn dfw_keys_exec() -> (r: Vec<(&'static str, usize)>)
    ensures
        r@ == dfw_keys(),
        schema_ok(r@, 7),
{
    let r = vec![
        ("defaults", 0usize),
        ("initialization", 1usize),
        ("container_to_container", 2usize),
        ("container_to_wider_world", 3usize),
        ("container_to_host", 4usize),
        ("wider_world_to_container", 5usize),
        ("container_dnat", 6usize),
    ];
    assert(r@ =~= dfw_keys());
    r
}

/// A `DFW` from the entries of its table, each field taken from the
/// entry its slot names; the first field that fails decides.
pub open spec fn spec_dfw_fields(es: Seq<(String, Value)>, sl: Seq<Option<usize>>) -> Result<
    DFWModel,
    DecodeErrorView,
> {
    let f0 = spec_optional::<Defaults>(es, sl[0], "defaults"@);
    let f1 = spec_optional::<Initialization>(es, sl[1], "initialization"@);
    let f2 = spec_optional::<ContainerToContainer>(es, sl[2], "container_to_container"@);
    let f3 = spec_optional::<ContainerToWiderWorld>(es, sl[3], "container_to_wider_world"@);
    let f4 = spec_optional::<ContainerToHost>(es, sl[4], "container_to_host"@);
    let f5 = spec_optional::<WiderWorldToContainer>(es, sl[5], "wider_world_to_container"@);
    let f6 = spec_optional::<ContainerDNAT>(es, sl[6], "container_dnat"@);
    if f0 is Err {
        Err(f0->Err_0)
    } else if f1 is Err {
        Err(f1->Err_0)
    } else if f2 is Err {
        Err(f2->Err_0)
    } else if f3 is Err {
        Err(f3->Err_0)
    } else if f4 is Err {
        Err(f4->Err_0)
    } else if f5 is Err {
        Err(f5->Err_0)
    } else if f6 is Err {
        Err(f6->Err_0)
    } else {
        Ok(
            DFWModel {
                defaults: f0->Ok_0,
                initialization: f1->Ok_0,
                container_to_container: f2->Ok_0,
                container_to_wider_world: f3->Ok_0,
                container_to_host: f4->Ok_0,
                wider_world_to_container: f5->Ok_0,
                container_dnat: f6->Ok_0,
            },
        )
    }
}

impl Decode for DFW {
    type Model = DFWModel;

    open spec fn model(&self) -> DFWModel {
        DFWModel {
            defaults: opt_model(self.defaults),
            initialization: opt_model(self.initialization),
            container_to_container: opt_model(self.container_to_container),
            container_to_wider_world: opt_model(self.container_to_wider_world),
            container_to_host: opt_model(self.container_to_host),
            wider_world_to_container: opt_model(self.wider_world_to_container),
            container_dnat: opt_model(self.container_dnat),
        }
    }

    open spec fn spec_decode(v: Value) -> Result<DFWModel, DecodeErrorView> {
        match v {
            Value::Table(es) => match gather(es@, dfw_keys(), 7) {
                Err(e) => Err(e),
                Ok(sl) => spec_dfw_fields(es@, sl),
            },
            _ => fault(ErrorKindView::InvalidType(Expected::Table)),
        }
    }

    fn decode(v: &Value) -> (r: Result<DFW, DecodeError>) {
        let es = match v {
            Value::Table(es) => es,
            _ => {
                return Err(error_at(ErrorKind::InvalidType(Expected::Table)));
            },
        };
        let keys = dfw_keys_exec();
        let sl = match gather_fields(es, &keys, 7) {
            Ok(sl) => sl,
            Err(e) => {
                return Err(e);
            },
        };
        proof {
            lemma_gather_slots(es@, dfw_keys(), 7);
        }
        let defaults = match optional::<Defaults>(es, sl[0], "defaults") {
            Ok(x) => x,
            Err(e) => {
                return Err(e);
            },
        };
        let initialization = match optional::<Initialization>(es, sl[1], "initialization") {
            Ok(x) => x,
            Err(e) => {
                return Err(e);
            },
        };
        let container_to_container = match optional::<ContainerToContainer>(es, sl[2], "container_to_container") {
            Ok(x) => x,
            Err(e) => {
                return Err(e);
            },
        };
        let container_to_wider_world = match optional::<ContainerToWiderWorld>(es, sl[3], "container_to_wider_world") {
            Ok(x) => x,
            Err(e) => {
                return Err(e);
            },
        };
        let container_to_host = match optional::<ContainerToHost>(es, sl[4], "container_to_host") {
            Ok(x) => x,
            Err(e) => {
                return Err(e);
            },
        };
        let wider_world_to_container = match optional::<WiderWorldToContainer>(es, sl[5], "wider_world_to_container") {
            Ok(x) => x,
            Err(e) => {
                return Err(e);
            },
        };
        let container_dnat = match optional::<ContainerDNAT>(es, sl[6], "container_dnat") {
            Ok(x) => x,
            Err(e) => {
                return Err(e);
            },
        };
        Ok(DFW { defaults, initialization, container_to_container, container_to_wider_world, container_to_host, wider_world_to_container, container_dnat })
    }
}

/// Settings used while building the rules.
#[derive(Clone, Debug, PartialEq, Eq, Hash, Default)]
pub struct Defaults {
    /// Tables managed outside this configuration whose chains are also touched; one record or a sequence.
    pub custom_tables: Option<Vec<Table>>,
    /// External interfaces of the host; one name or a sequence.
    pub external_network_interfaces: Option<Vec<String>>,
    /// Whether the default bridge may reach the host; `accept` when absent.
    pub default_docker_bridge_to_host_policy: ChainPolicy,
}

/// What a [`Defaults`] holds.
pub struct DefaultsModel {
    pub custom_tables: Option<Seq<TableModel>>,
    pub external_network_interfaces: Option<Seq<Seq<char>>>,
    pub default_docker_bridge_to_host_policy: ChainPolicy,
}

/// The keys a `Defaults` table accepts and the field each one fills.
pub open spec fn defaults_keys() -> Seq<(&'static str, usize)> {
    seq![
        ("custom_tables", 0usize),
        ("external_network_interfaces", 1usize),
        ("default_docker_bridge_to_host_policy", 2usize),
    ]
}

fn defaults_keys_exec() -> (r: Vec<(&'static str, usize)>)
    ensures
        r@ == defaults_keys(),
        schema_ok(r@, 3),
{
    let r = vec![
        ("custom_tables", 0usize),
        ("external_network_interfaces", 1usize),
        ("default_docker_bridge_to_host_policy", 2usize),
    ];
    assert(r@ =~= defaults_keys());
    r
}

/// A `Defaults` from the entries of its table, each field taken from the
/// entry its slot names; the first field that fails decides.
pub open spec fn spec_defaults_fields(es: Seq<(String, Value)>, sl: Seq<Option<usize>>) -> Result<
    DefaultsModel,
    DecodeErrorView,
> {
    let f0 = spec_opt_tables(es, sl[0], "custom_tables"@);
    let f1 = spec_opt_strings(es, sl[1], "external_network_interfaces"@);
    let f2 = spec_policy_or_accept(es, sl[2], "default_docker_bridge_to_host_policy"@);
    if f0 is Err {
        Err(f0->Err_0)
    } else if f1 is Err {
        Err(f1->Err_0)
    } else if f2 is Err {
        Err(f2->Err_0)
    } else {
        Ok(
            DefaultsModel {
                custom_tables: f0->Ok_0,
                external_network_interfaces: f1->Ok_0,
                default_docker_bridge_to_host_policy: f2->Ok_0,
            },
        )
    }
}

impl Decode for Defaults {
    type Model = DefaultsModel;

    open spec fn model(&self) -> DefaultsModel {
        DefaultsModel {
            custom_tables: opt_model(self.custom_tables),
            external_network_interfaces: opt_model(self.external_network_interfaces),
            default_docker_bridge_to_host_policy: self.default_docker_bridge_to_host_policy,
        }
    }

    open spec fn spec_decode(v: Value) -> Result<DefaultsModel, DecodeErrorView> {
        match v {
            Value::Table(es) => match gather(es@, defaults_keys(), 3) {
                Err(e) => Err(e),
                Ok(sl) => spec_defaults_fields(es@, sl),
            },
            _ => fault(ErrorKindView::InvalidType(Expected::Table)),
        }
    }

    fn decode(v: &Value) -> (r: Result<Defaults, DecodeError>) {
        let es = match v {
            Value::Table(es) => es,
            _ => {
                return Err(error_at(ErrorKind::InvalidType(Expected::Table)));
            },
        };
        let keys = defaults_keys_exec();
        let sl = match gather_fields(es, &keys, 3) {
            Ok(sl) => sl,
            Err(e) => {
                return Err(e);
            },
        };
        proof {
            lemma_gather_slots(es@, defaults_keys(), 3);
        }
        let custom_tables = match opt_tables(es, sl[0], "custom_tables") {
            Ok(x) => x,
            Err(e) => {
                return Err(e);
            },
        };
        let external_network_interfaces = match opt_strings(es, sl[1], "external_network_interfaces") {
            Ok(x) => x,
            Err(e) => {
                return Err(e);
            },
        };
        let default_docker_bridge_to_host_policy = match policy_or_accept(es, sl[2], "default_docker_bridge_to_host_policy") {
            Ok(x) => x,
            Err(e) => {
                return Err(e);
            },
        };
        Ok(Defaults { custom_tables, external_network_interfaces, default_docker_bridge_to_host_policy })
    }
}

/// A table managed outside this configuration, with the chains in it that may be managed.
#[derive(Clone, Debug, PartialEq, Eq, Hash, Default)]
pub struct Table {
    /// Name of the table.
    pub name: String,
    /// Names of its input and forward chains.
    pub chains: Vec<String>,
}

/// What a [`Table`] holds.
pub struct TableModel {
    pub name: Seq<char>,
    pub chains: Seq<Seq<char>>,
}

/// The keys a `Table` table accepts and the field each one fills.
pub open spec fn table_keys() -> Seq<(&'static str, usize)> {
    seq![("name", 0usize), ("chains", 1usize)]
}

fn table_keys_exec() -> (r: Vec<(&'static str, usize)>)
    ensures
        r@ == table_keys(),
        schema_ok(r@, 2),
{
    let r = vec![("name", 0usize), ("chains", 1usize)];
    assert(r@ =~= table_keys());
    r
}

/// A `Table` from the entries of its table, each field taken from the
/// entry its slot names; the first field that fails decides.
pub open spec fn spec_table_fields(es: Seq<(String, Value)>, sl: Seq<Option<usize>>) -> Result<
    TableModel,
    DecodeErrorView,
> {
    let f0 = spec_required::<String>(es, sl[0], "name"@);
    let f1 = spec_required::<Vec<String>>(es, sl[1], "chains"@);
    if f0 is Err {
        Err(f0->Err_0)
    } else if f1 is Err {
        Err(f1->Err_0)
    } else {
        Ok(
            TableModel {
                name: f0->Ok_0,
                chains: f1->Ok_0,
            },
        )
    }
}

/// A table reference with a key other than `name` and `chains` fails to
/// decode.
pub proof fn law_table_closed(v: Value, i: int)
    requires
        v matches Value::Table(es) && 0 <= i < es@.len() && key_slot(table_keys(), es@[i].0@)
            is None,
    ensures
        Table::spec_decode(v) is Err,
{
    law_undeclared_key_rejected(v->Table_0@, table_keys(), 2, i);
}

impl Decode for Table {
    type Model = TableModel;

    open spec fn model(&self) -> TableModel {
        TableModel {
            name: self.name.model(),
            chains: self.chains.model(),
        }
    }

    open spec fn spec_decode(v: Value) -> Result<TableModel, DecodeErrorView> {
        match v {
            Value::Table(es) => match gather(es@, table_keys(), 2) {
                Err(e) => Err(e),
                Ok(sl) => spec_table_fields(es@, sl),
            },
            _ => fault(ErrorKindView::InvalidType(Expected::Table)),
        }
    }

    fn decode(v: &Value) -> (r: Result<Table, DecodeError>) {
        let es = match v {
            Value::Table(es) => es,
            _ => {
                return Err(error_at(ErrorKind::InvalidType(Expected::Table)));
            },
        };
        let keys = table_keys_exec();
        let sl = match gather_fields(es, &keys, 2) {
            Ok(sl) => sl,
            Err(e) => {
                return Err(e);
            },
        };
        proof {
            lemma_gather_slots(es@, table_keys(), 2);
        }
        let name = match required::<String>(es, sl[0], "name") {
            Ok(x) => x,
            Err(e) => {
                return Err(e);
            },
        };
        let chains = match required::<Vec<String>>(es, sl[1], "chains") {
            Ok(x) => x,
            Err(e) => {
                return Err(e);
            },
        };
        Ok(Table { name, chains })
    }
}

/// Commands run before any rule is built.
#[derive(Clone, Debug, PartialEq, Eq, Default)]
pub struct Initialization {
    /// The commands, in order.
    pub rules: Option<Vec<String>>,
}

/// What a [`Initialization`] holds.
pub struct InitializationModel {
    pub rules: Option<Seq<Seq<char>>>,
}

/// The keys a `Initialization` table accepts and the field each one fills.
pub open spec fn initialization_keys() -> Seq<(&'static str, usize)> {
    seq![("rules", 0usize)]
}

fn initialization_keys_exec() -> (r: Vec<(&'static str, usize)>)
    ensures
        r@ == initialization_keys(),
        schema_ok(r@, 1),
{
    let r = vec![("rules", 0usize)];
    assert(r@ =~= initialization_keys());
    r
}

/// A `Initialization` from the entries of its table, each field taken from the
/// entry its slot names; the first field that fails decides.
pub open spec fn spec_initialization_fields(es: Seq<(String, Value)>, sl: Seq<Option<usize>>) -> Result<
    InitializationModel,
    DecodeErrorView,
> {
    let f0 = spec_optional::<Vec<String>>(es, sl[0], "rules"@);
    if f0 is Err {
        Err(f0->Err_0)
    } else {
        Ok(
            InitializationModel {
                rules: f0->Ok_0,
            },
        )
    }
}

impl Decode for Initialization {
    type Model = InitializationModel;

    open spec fn model(&self) -> InitializationModel {
        InitializationModel {
            rules: opt_model(self.rules),
        }
    }

    open spec fn spec_decode(v: Value) -> Result<InitializationModel, DecodeErrorView> {
        match v {
            Value::Table(es) => match gather(es@, initialization_keys(), 1) {
                Err(e) => Err(e),
                Ok(sl) => spec_initialization_fields(es@, sl),
            },
            _ => fault(ErrorKindView::InvalidType(Expected::Table)),
        }
    }

    fn decode(v: &Value) -> (r: Result<Initialization, DecodeError>) {
        let es = match v {
            Value::Table(es) => es,
            _ => {
                return Err(error_at(ErrorKind::InvalidType(Expected::Table)));
            },
        };
        let keys = initialization_keys_exec();
        let sl = match gather_fields(es, &keys, 1) {
            Ok(sl) => sl,
            Err(e) => {
                return Err(e);
            },
        };
        proof {
            lemma_gather_slots(es@, initialization_keys(), 1);
        }
        let rules = match optional::<Vec<String>>(es, sl[0], "rules") {
            Ok(x) => x,
            Err(e) => {
                return Err(e);
            },
        };
        Ok(Initialization { rules })
    }
}

/// How containers reach each other.
#[derive(Clone, Debug, PartialEq, Eq, Hash)]
pub struct ContainerToContainer {
    /// What happens when no rule matches.
    pub default_policy: ChainPolicy,
    /// The rules, in order.
    pub rules: Option<Vec<ContainerToContainerRule>>,
}

/// What a [`ContainerToContainer`] holds.
pub struct ContainerToContainerModel {
    pub default_policy: ChainPolicy,
    pub rules: Option<Seq<ContainerToContainerRuleModel>>,
}

/// The keys a `ContainerToContainer` table accepts and the field each one fills.
pub open spec fn container_to_container_keys() -> Seq<(&'static str, usize)> {
    seq![("default_policy", 0usize), ("rules", 1usize)]
}

fn container_to_container_keys_exec() -> (r: Vec<(&'static str, usize)>)
    ensures
        r@ == container_to_container_keys(),
        schema_ok(r@, 2),
{
    let r = vec![("default_policy", 0usize), ("rules", 1usize)];
    assert(r@ =~= container_to_container_keys());
    r
}

/// A `ContainerToContainer` from the entries of its table, each field taken from the
/// entry its slot names; the first field that fails decides.
pub open spec fn spec_container_to_container_fields(es: Seq<(String, Value)>, sl: Seq<Option<usize>>) -> Result<
    ContainerToContainerModel,
    DecodeErrorView,
> {
    let f0 = spec_required::<ChainPolicy>(es, sl[0], "default_policy"@);
    let f1 = spec_optional::<Vec<ContainerToContainerRule>>(es, sl[1], "rules"@);
    if f0 is Err {
        Err(f0->Err_0)
    } else if f1 is Err {
        Err(f1->Err_0)
    } else {
        Ok(
            ContainerToContainerModel {
                default_policy: f0->Ok_0,
                rules: f1->Ok_0,
            },
        )
    }
}

impl Decode for ContainerToContainer {
    type Model = ContainerToContainerModel;

    open spec fn model(&self) -> ContainerToContainerModel {
        ContainerToContainerModel {
            default_policy: self.default_policy.model(),
            rules: opt_model(self.rules),
        }
    }

    open spec fn spec_decode(v: Value) -> Result<ContainerToContainerModel, DecodeErrorView> {
        match v {
            Value::Table(es) => match gather(es@, container_to_container_keys(), 2) {
                Err(e) => Err(e),
                Ok(sl) => spec_container_to_container_fields(es@, sl),
            },
            _ => fault(ErrorKindView::InvalidType(Expected::Table)),
        }
    }

    fn decode(v: &Value) -> (r: Result<ContainerToContainer, DecodeError>) {
        let es = match v {
            Value::Table(es) => es,
            _ => {
                return Err(error_at(ErrorKind::InvalidType(Expected::Table)));
            },
        };
        let keys = container_to_container_keys_exec();
        let sl = match gather_fields(es, &keys, 2) {
            Ok(sl) => sl,
            Err(e) => {
                return Err(e);
            },
        };
        proof {
            lemma_gather_slots(es@, container_to_container_keys(), 2);
        }
        let default_policy = match required::<ChainPolicy>(es, sl[0], "default_policy") {
            Ok(x) => x,
            Err(e) => {
                return Err(e);
            },
        };
        let rules = match optional::<Vec<ContainerToContainerRule>>(es, sl[1], "rules") {
            Ok(x) => x,
            Err(e) => {
                return Err(e);
            },
        };
        Ok(ContainerToContainer { default_policy, rules })
    }
}

/// A rule between two containers on a common network.
#[derive(Clone, Debug, PartialEq, Eq, Hash)]
pub struct ContainerToContainerRule {
    /// The common network.
    pub network: String,
    /// Source container.
    pub src_container: Option<String>,
    /// Destination container.
    pub dst_container: Option<String>,
    /// Additional match expression.
    pub matches: Option<String>,
    /// Verdict; also accepted as `action`.
    pub verdict: RuleVerdict,
}

/// What a [`ContainerToContainerRule`] holds.
pub struct ContainerToContainerRuleModel {
    pub network: Seq<char>,
    pub src_container: Option<Seq<char>>,
    pub dst_container: Option<Seq<char>>,
    pub matches: Option<Seq<char>>,
    pub verdict: RuleVerdict,
}

/// The keys a `ContainerToContainerRule` table accepts and the field each one fills.
pub open spec fn container_to_container_rule_keys() -> Seq<(&'static str, usize)> {
    seq![
        ("network", 0usize),
        ("src_container", 1usize),
        ("dst_container", 2usize),
        ("matches", 3usize),
        ("verdict", 4usize),
        ("action", 4usize),
    ]
}

fn container_to_container_rule_keys_exec() -> (r: Vec<(&'static str, usize)>)
    ensures
        r@ == container_to_container_rule_keys(),
        schema_ok(r@, 5),
{
    let r = vec![
        ("network", 0usize),
        ("src_container", 1usize),
        ("dst_container", 2usize),
        ("matches", 3usize),
        ("verdict", 4usize),
        ("action", 4usize),
    ];
    assert(r@ =~= container_to_container_rule_keys());
    r
}

/// A `ContainerToContainerRule` from the entries of its table, each field taken from the
/// entry its slot names; the first field that fails decides.
pub open spec fn spec_container_to_container_rule_fields(es: Seq<(String, Value)>, sl: Seq<Option<usize>>) -> Result<
    ContainerToContainerRuleModel,
    DecodeErrorView,
> {
    let f0 = spec_required::<String>(es, sl[0], "network"@);
    let f1 = spec_optional::<String>(es, sl[1], "src_container"@);
    let f2 = spec_optional::<String>(es, sl[2], "dst_container"@);
    let f3 = spec_optional::<String>(es, sl[3], "matches"@);
    let f4 = spec_required::<RuleVerdict>(es, sl[4], "verdict"@);
    if f0 is Err {
        Err(f0->Err_0)
    } else if f1 is Err {
        Err(f1->Err_0)
    } else if f2 is Err {
        Err(f2->Err_0)
    } else if f3 is Err {
        Err(f3->Err_0)
    } else if f4 is Err {
        Err(f4->Err_0)
    } else {
        Ok(
            ContainerToContainerRuleModel {
                network: f0->Ok_0,
                src_container: f1->Ok_0,
                dst_container: f2->Ok_0,
                matches: f3->Ok_0,
                verdict: f4->Ok_0,
            },
        )
    }
}

impl Decode for ContainerToContainerRule {
    type Model = ContainerToContainerRuleModel;

    open spec fn model(&self) -> ContainerToContainerRuleModel {
        ContainerToContainerRuleModel {
            network: self.network.model(),
            src_container: opt_model(self.src_container),
            dst_container: opt_model(self.dst_container),
            matches: opt_model(self.matches),
            verdict: self.verdict.model(),
        }
    }

    open spec fn spec_decode(v: Value) -> Result<ContainerToContainerRuleModel, DecodeErrorView> {
        match v {
            Value::Table(es) => match gather(es@, container_to_container_rule_keys(), 5) {
                Err(e) => Err(e),
                Ok(sl) => spec_container_to_container_rule_fields(es@, sl),
            },
            _ => fault(ErrorKindView::InvalidType(Expected::Table)),
        }
    }

    fn decode(v: &Value) -> (r: Result<ContainerToContainerRule, DecodeError>) {
        let es = match v {
            Value::Table(es) => es,
            _ => {
                return Err(error_at(ErrorKind::InvalidType(Expected::Table)));
            },
        };
        let keys = container_to_container_rule_keys_exec();
        let sl = match gather_fields(es, &keys, 5) {
            Ok(sl) => sl,
            Err(e) => {
                return Err(e);
            },
        };
        proof {
            lemma_gather_slots(es@, container_to_container_rule_keys(), 5);
        }
        let network = match required::<String>(es, sl[0], "network") {
            Ok(x) => x,
            Err(e) => {
                return Err(e);
            },
        };
        let src_container = match optional::<String>(es, sl[1], "src_container") {
            Ok(x) => x,
            Err(e) => {
                return Err(e);
            },
        };
        let dst_container = match optional::<String>(es, sl[2], "dst_container") {
            Ok(x) => x,
            Err(e) => {
                return Err(e);
            },
        };
        let matches = match optional::<String>(es, sl[3], "matches") {
            Ok(x) => x,
            Err(e) => {
                return Err(e);
            },
        };
        let verdict = match required::<RuleVerdict>(es, sl[4], "verdict") {
            Ok(x) => x,
            Err(e) => {
                return Err(e);
            },
        };
        Ok(ContainerToContainerRule { network, src_container, dst_container, matches, verdict })
    }
}

/// How containers reach the wider world.
#[derive(Clone, Debug, PartialEq, Eq, Hash)]
pub struct ContainerToWiderWorld {
    /// What happens when no rule matches.
    pub default_policy: RuleVerdict,
    /// The rules, in order.
    pub rules: Option<Vec<ContainerToWiderWorldRule>>,
}

/// What a [`ContainerToWiderWorld`] holds.
pub struct ContainerToWiderWorldModel {
    pub default_policy: RuleVerdict,
    pub rules: Option<Seq<ContainerToWiderWorldRuleModel>>,
}

/// The keys a `ContainerToWiderWorld` table accepts and the field each one fills.
pub open spec fn container_to_wider_world_keys() -> Seq<(&'static str, usize)> {
    seq![("default_policy", 0usize), ("rules", 1usize)]
}

fn container_to_wider_world_keys_exec() -> (r: Vec<(&'static str, usize)>)
    ensures
        r@ == container_to_wider_world_keys(),
        schema_ok(r@, 2),
{
    let r = vec![("default_policy", 0usize), ("rules", 1usize)];
    assert(r@ =~= container_to_wider_world_keys());
    r
}

/// A `ContainerToWiderWorld` from the entries of its table, each field taken from the
/// entry its slot names; the first field that fails decides.
pub open spec fn spec_container_to_wider_world_fields(es: Seq<(String, Value)>, sl: Seq<Option<usize>>) -> Result<
    ContainerToWiderWorldModel,
    DecodeErrorView,
> {
    let f0 = spec_required::<RuleVerdict>(es, sl[0], "default_policy"@);
    let f1 = spec_optional::<Vec<ContainerToWiderWorldRule>>(es, sl[1], "rules"@);
    if f0 is Err {
        Err(f0->Err_0)
    } else if f1 is Err {
        Err(f1->Err_0)
    } else {
        Ok(
            ContainerToWiderWorldModel {
                default_policy: f0->Ok_0,
                rules: f1->Ok_0,
            },
        )
    }
}

impl Decode for ContainerToWiderWorld {
    type Model = ContainerToWiderWorldModel;

    open spec fn model(&self) -> ContainerToWiderWorldModel {
        ContainerToWiderWorldModel {
            default_policy: self.default_policy.model(),
            rules: opt_model(self.rules),
        }
    }

    open spec fn spec_decode(v: Value) -> Result<ContainerToWiderWorldModel, DecodeErrorView> {
        match v {
            Value::Table(es) => match gather(es@, container_to_wider_world_keys(), 2) {
                Err(e) => Err(e),
                Ok(sl) => spec_container_to_wider_world_fields(es@, sl),
            },
            _ => fault(ErrorKindView::InvalidType(Expected::Table)),
        }
    }

    fn decode(v: &Value) -> (r: Result<ContainerToWiderWorld, DecodeError>) {
        let es = match v {
            Value::Table(es) => es,
            _ => {
                return Err(error_at(ErrorKind::InvalidType(Expected::Table)));
            },
        };
        let keys = container_to_wider_world_keys_exec();
        let sl = match gather_fields(es, &keys, 2) {
            Ok(sl) => sl,
            Err(e) => {
                return Err(e);
            },
        };
        proof {
            lemma_gather_slots(es@, container_to_wider_world_keys(), 2);
        }
        let default_policy = match required::<RuleVerdict>(es, sl[0], "default_policy") {
            Ok(x) => x,
            Err(e) => {
                return Err(e);
            },
        };
        let rules = match optional::<Vec<ContainerToWiderWorldRule>>(es, sl[1], "rules") {
            Ok(x) => x,
            Err(e) => {
                return Err(e);
            },
        };
        Ok(ContainerToWiderWorld { default_policy, rules })
    }
}

/// A rule from containers to the wider world.
#[derive(Clone, Debug, PartialEq, Eq, Hash)]
pub struct ContainerToWiderWorldRule {
    /// Network of the source container.
    pub network: Option<String>,
    /// Source container.
    pub src_container: Option<String>,
    /// Additional match expression.
    pub matches: Option<String>,
    /// Verdict; also accepted as `action`.
    pub verdict: RuleVerdict,
    /// External interface to target.
    pub external_network_interface: Option<String>,
}

/// What a [`ContainerToWiderWorldRule`] holds.
pub struct ContainerToWiderWorldRuleModel {
    pub network: Option<Seq<char>>,
    pub src_container: Option<Seq<char>>,
    pub matches: Option<Seq<char>>,
    pub verdict: RuleVerdict,
    pub external_network_interface: Option<Seq<char>>,
}

/// The keys a `ContainerToWiderWorldRule` table accepts and the field each one fills.
pub open spec fn container_to_wider_world_rule_keys() -> Seq<(&'static str, usize)> {
    seq![
        ("network", 0usize),
        ("src_container", 1usize),
        ("matches", 2usize),
        ("verdict", 3usize),
        ("external_network_interface", 4usize),
        ("action", 3usize),
    ]
}

fn container_to_wider_world_rule_keys_exec() -> (r: Vec<(&'static str, usize)>)
    ensures
        r@ == container_to_wider_world_rule_keys(),
        schema_ok(r@, 5),
{
    let r = vec![
        ("network", 0usize),
        ("src_container", 1usize),
        ("matches", 2usize),
        ("verdict", 3usize),
        ("external_network_interface", 4usize),
        ("action", 3usize),
    ];
    assert(r@ =~= container_to_wider_world_rule_keys());
    r
}

/// A `ContainerToWiderWorldRule` from the entries of its table, each field taken from the
/// entry its slot names; the first field that fails decides.
pub open spec fn spec_container_to_wider_world_rule_fields(es: Seq<(String, Value)>, sl: Seq<Option<usize>>) -> Result<
    ContainerToWiderWorldRuleModel,
    DecodeErrorView,
> {
    let f0 = spec_optional::<String>(es, sl[0], "network"@);
    let f1 = spec_optional::<String>(es, sl[1], "src_container"@);
    let f2 = spec_optional::<String>(es, sl[2], "matches"@);
    let f3 = spec_required::<RuleVerdict>(es, sl[3], "verdict"@);
    let f4 = spec_optional::<String>(es, sl[4], "external_network_interface"@);
    if f0 is Err {
        Err(f0->Err_0)
    } else if f1 is Err {
        Err(f1->Err_0)
    } else if f2 is Err {
        Err(f2->Err_0)
    } else if f3 is Err {
        Err(f3->Err_0)
    } else if f4 is Err {
        Err(f4->Err_0)
    } else {
        Ok(
            ContainerToWiderWorldRuleModel {
                network: f0->Ok_0,
                src_container: f1->Ok_0,
                matches: f2->Ok_0,
                verdict: f3->Ok_0,
                external_network_interface: f4->Ok_0,
            },
        )
    }
}

impl Decode for ContainerToWiderWorldRule {
    type Model = ContainerToWiderWorldRuleModel;

    open spec fn model(&self) -> ContainerToWiderWorldRuleModel {
        ContainerToWiderWorldRuleModel {
            network: opt_model(self.network),
            src_container: opt_model(self.src_container),
            matches: opt_model(self.matches),
            verdict: self.verdict.model(),
            external_network_interface: opt_model(self.external_network_interface),
        }
    }

    open spec fn spec_decode(v: Value) -> Result<ContainerToWiderWorldRuleModel, DecodeErrorView> {
        match v {
            Value::Table(es) => match gather(es@, container_to_wider_world_rule_keys(), 5) {
                Err(e) => Err(e),
                Ok(sl) => spec_container_to_wider_world_rule_fields(es@, sl),
            },
            _ => fault(ErrorKindView::InvalidType(Expected::Table)),
        }
    }

    fn decode(v: &Value) -> (r: Result<ContainerToWiderWorldRule, DecodeError>) {
        let es = match v {
            Value::Table(es) => es,
            _ => {
                return Err(error_at(ErrorKind::InvalidType(Expected::Table)));
            },
        };
        let keys = container_to_wider_world_rule_keys_exec();
        let sl = match gather_fields(es, &keys, 5) {
            Ok(sl) => sl,
            Err(e) => {
                return Err(e);
            },
        };
        proof {
            lemma_gather_slots(es@, container_to_wider_world_rule_keys(), 5);
        }
        let network = match optional::<String>(es, sl[0], "network") {
            Ok(x) => x,
            Err(e) => {
                return Err(e);
            },
        };
        let src_container = match optional::<String>(es, sl[1], "src_container") {
            Ok(x) => x,
            Err(e) => {
                return Err(e);
            },
        };
        let matches = match optional::<String>(es, sl[2], "matches") {
            Ok(x) => x,
            Err(e) => {
                return Err(e);
            },
        };
        let verdict = match required::<RuleVerdict>(es, sl[3], "verdict") {
            Ok(x) => x,
            Err(e) => {
                return Err(e);
            },
        };
        let external_network_interface = match optional::<String>(es, sl[4], "external_network_interface") {
            Ok(x) => x,
            Err(e) => {
                return Err(e);
            },
        };
        Ok(ContainerToWiderWorldRule { network, src_container, matches, verdict, external_network_interface })
    }
}

/// How containers reach the host.
#[derive(Clone, Debug, PartialEq, Eq, Hash)]
pub struct ContainerToHost {
    /// What happens when no rule matches.
    pub default_policy: RuleVerdict,
    /// The rules, in order.
    pub rules: Option<Vec<ContainerToHostRule>>,
}

/// What a [`ContainerToHost`] holds.
pub struct ContainerToHostModel {
    pub default_policy: RuleVerdict,
    pub rules: Option<Seq<ContainerToHostRuleModel>>,
}

/// The keys a `ContainerToHost` table accepts and the field each one fills.
pub open spec fn container_to_host_keys() -> Seq<(&'static str, usize)> {
    seq![("default_policy", 0usize), ("rules", 1usize)]
}

fn container_to_host_keys_exec() -> (r: Vec<(&'static str, usize)>)
    ensures
        r@ == container_to_host_keys(),
        schema_ok(r@, 2),
{
    let r = vec![("default_policy", 0usize), ("rules", 1usize)];
    assert(r@ =~= container_to_host_keys());
    r
}

/// A `ContainerToHost` from the entries of its table, each field taken from the
/// entry its slot names; the first field that fails decides.
pub open spec fn spec_container_to_host_fields(es: Seq<(String, Value)>, sl: Seq<Option<usize>>) -> Result<
    ContainerToHostModel,
    DecodeErrorView,
> {
    let f0 = spec_required::<RuleVerdict>(es, sl[0], "default_policy"@);
    let f1 = spec_optional::<Vec<ContainerToHostRule>>(es, sl[1], "rules"@);
    if f0 is Err {
        Err(f0->Err_0)
    } else if f1 is Err {
        Err(f1->Err_0)
    } else {
        Ok(
            ContainerToHostModel {
                default_policy: f0->Ok_0,
                rules: f1->Ok_0,
            },
        )
    }
}

impl Decode for ContainerToHost {
    type Model = ContainerToHostModel;

    open spec fn model(&self) -> ContainerToHostModel {
        ContainerToHostModel {
            default_policy: self.default_policy.model(),
            rules: opt_model(self.rules),
        }
    }

    open spec fn spec_decode(v: Value) -> Result<ContainerToHostModel, DecodeErrorView> {
        match v {
            Value::Table(es) => match gather(es@, container_to_host_keys(), 2) {
                Err(e) => Err(e),
                Ok(sl) => spec_container_to_host_fields(es@, sl),
            },
            _ => fault(ErrorKindView::InvalidType(Expected::Table)),
        }
    }

    fn decode(v: &Value) -> (r: Result<ContainerToHost, DecodeError>) {
        let es = match v {
            Value::Table(es) => es,
            _ => {
                return Err(error_at(ErrorKind::InvalidType(Expected::Table)));
            },
        };
        let keys = container_to_host_keys_exec();
        let sl = match gather_fields(es, &keys, 2) {
            Ok(sl) => sl,
            Err(e) => {
                return Err(e);
            },
        };
        proof {
            lemma_gather_slots(es@, container_to_host_keys(), 2);
        }
        let default_policy = match required::<RuleVerdict>(es, sl[0], "default_policy") {
            Ok(x) => x,
            Err(e) => {
                return Err(e);
            },
        };
        let rules = match optional::<Vec<ContainerToHostRule>>(es, sl[1], "rules") {
            Ok(x) => x,
            Err(e) => {
                return Err(e);
            },
        };
        Ok(ContainerToHost { default_policy, rules })
    }
}

/// A rule from containers to the host.
#[derive(Clone, Debug, PartialEq, Eq, Hash)]
pub struct ContainerToHostRule {
    /// Network of the source container.
    pub network: String,
    /// Source container.
    pub src_container: Option<String>,
    /// Additional match expression.
    pub matches: Option<String>,
    /// Verdict; also accepted as `action`.
    pub verdict: RuleVerdict,
}

/// What a [`ContainerToHostRule`] holds.
pub struct ContainerToHostRuleModel {
    pub network: Seq<char>,
    pub src_container: Option<Seq<char>>,
    pub matches: Option<Seq<char>>,
    pub verdict: RuleVerdict,
}

/// The keys a `ContainerToHostRule` table accepts and the field each one fills.
pub open spec fn container_to_host_rule_keys() -> Seq<(&'static str, usize)> {
    seq![
        ("network", 0usize),
        ("src_container", 1usize),
        ("matches", 2usize),
        ("verdict", 3usize),
        ("action", 3usize),
    ]
}

fn container_to_host_rule_keys_exec() -> (r: Vec<(&'static str, usize)>)
    ensures
        r@ == container_to_host_rule_keys(),
        schema_ok(r@, 4),
{
    let r = vec![
        ("network", 0usize),
        ("src_container", 1usize),
        ("matches", 2usize),
        ("verdict", 3usize),
        ("action", 3usize),
    ];
    assert(r@ =~= container_to_host_rule_keys());
    r
}

/// A `ContainerToHostRule` from the entries of its table, each field taken from the
/// entry its slot names; the first field that fails decides.
pub open spec fn spec_container_to_host_rule_fields(es: Seq<(String, Value)>, sl: Seq<Option<usize>>) -> Result<
    ContainerToHostRuleModel,
    DecodeErrorView,
> {
    let f0 = spec_required::<String>(es, sl[0], "network"@);
    let f1 = spec_optional::<String>(es, sl[1], "src_container"@);
    let f2 = spec_optional::<String>(es, sl[2], "matches"@);
    let f3 = spec_required::<RuleVerdict>(es, sl[3], "verdict"@);
    if f0 is Err {
        Err(f0->Err_0)
    } else if f1 is Err {
        Err(f1->Err_0)
    } else if f2 is Err {
        Err(f2->Err_0)
    } else if f3 is Err {
        Err(f3->Err_0)
    } else {
        Ok(
            ContainerToHostRuleModel {
                network: f0->Ok_0,
                src_container: f1->Ok_0,
                matches: f2->Ok_0,
                verdict: f3->Ok_0,
            },
        )
    }
}

impl Decode for ContainerToHostRule {
    type Model = ContainerToHostRuleModel;

    open spec fn model(&self) -> ContainerToHostRuleModel {
        ContainerToHostRuleModel {
            network: self.network.model(),
            src_container: opt_model(self.src_container),
            matches: opt_model(self.matches),
            verdict: self.verdict.model(),
        }
    }

    open spec fn spec_decode(v: Value) -> Result<ContainerToHostRuleModel, DecodeErrorView> {
        match v {
            Value::Table(es) => match gather(es@, container_to_host_rule_keys(), 4) {
                Err(e) => Err(e),
                Ok(sl) => spec_container_to_host_rule_fields(es@, sl),
            },
            _ => fault(ErrorKindView::InvalidType(Expected::Table)),
        }
    }

    fn decode(v: &Value) -> (r: Result<ContainerToHostRule, DecodeError>) {
        let es = match v {
            Value::Table(es) => es,
            _ => {
                return Err(error_at(ErrorKind::InvalidType(Expected::Table)));
            },
        };
        let keys = container_to_host_rule_keys_exec();
        let sl = match gather_fields(es, &keys, 4) {
            Ok(sl) => sl,
            Err(e) => {
                return Err(e);
            },
        };
        proof {
            lemma_gather_slots(es@, container_to_host_rule_keys(), 4);
        }
        let network = match required::<String>(es, sl[0], "network") {
            Ok(x) => x,
            Err(e) => {
                return Err(e);
            },
        };
        let src_container = match optional::<String>(es, sl[1], "src_container") {
            Ok(x) => x,
            Err(e) => {
                return Err(e);
            },
        };
        let matches = match optional::<String>(es, sl[2], "matches") {
            Ok(x) => x,
            Err(e) => {
                return Err(e);
            },
        };
        let verdict = match required::<RuleVerdict>(es, sl[3], "verdict") {
            Ok(x) => x,
            Err(e) => {
                return Err(e);
            },
        };
        Ok(ContainerToHostRule { network, src_container, matches, verdict })
    }
}

/// How the wider world reaches containers.
#[derive(Clone, Debug, PartialEq, Eq, Hash)]
pub struct WiderWorldToContainer {
    /// The rules, in order.
    pub rules: Option<Vec<WiderWorldToContainerRule>>,
}

/// What a [`WiderWorldToContainer`] holds.
pub struct WiderWorldToContainerModel {
    pub rules: Option<Seq<WiderWorldToContainerRuleModel>>,
}

/// The keys a `WiderWorldToContainer` table accepts and the field each one fills.
pub open spec fn wider_world_to_container_keys() -> Seq<(&'static str, usize)> {
    seq![("rules", 0usize)]
}

fn wider_world_to_container_keys_exec() -> (r: Vec<(&'static str, usize)>)
    ensures
        r@ == wider_world_to_container_keys(),
        schema_ok(r@, 1),
{
    let r = vec![("rules", 0usize)];
    assert(r@ =~= wider_world_to_container_keys());
    r
}

/// A `WiderWorldToContainer` from the entries of its table, each field taken from the
/// entry its slot names; the first field that fails decides.
pub open spec fn spec_wider_world_to_container_fields(es: Seq<(String, Value)>, sl: Seq<Option<usize>>) -> Result<
    WiderWorldToContainerModel,
    DecodeErrorView,
> {
    let f0 = spec_optional::<Vec<WiderWorldToContainerRule>>(es, sl[0], "rules"@);
    if f0 is Err {
        Err(f0->Err_0)
    } else {
        Ok(
            WiderWorldToContainerModel {
                rules: f0->Ok_0,
            },
        )
    }
}

impl Decode for WiderWorldToContainer {
    type Model = WiderWorldToContainerModel;

    open spec fn model(&self) -> WiderWorldToContainerModel {
        WiderWorldToContainerModel {
            rules: opt_model(self.rules),
        }
    }

    open spec fn spec_decode(v: Value) -> Result<WiderWorldToContainerModel, DecodeErrorView> {
        match v {
            Value::Table(es) => match gather(es@, wider_world_to_container_keys(), 1) {
                Err(e) => Err(e),
                Ok(sl) => spec_wider_world_to_container_fields(es@, sl),
            },
            _ => fault(ErrorKindView::InvalidType(Expected::Table)),
        }
    }

    fn decode(v: &Value) -> (r: Result<WiderWorldToContainer, DecodeError>) {
        let es = match v {
            Value::Table(es) => es,
            _ => {
                return Err(error_at(ErrorKind::InvalidType(Expected::Table)));
            },
        };
        let keys = wider_world_to_container_keys_exec();
        let sl = match gather_fields(es, &keys, 1) {
            Ok(sl) => sl,
            Err(e) => {
                return Err(e);
            },
        };
        proof {
            lemma_gather_slots(es@, wider_world_to_container_keys(), 1);
        }
        let rules = match optional::<Vec<WiderWorldToContainerRule>>(es, sl[0], "rules") {
            Ok(x) => x,
            Err(e) => {
                return Err(e);
            },
        };
        Ok(WiderWorldToContainer { rules })
    }
}

/// A rule exposing ports of a container to the wider world.
#[derive(Clone, Debug, PartialEq, Eq, Hash)]
pub struct WiderWorldToContainerRule {
    /// Network of the destination container.
    pub network: String,
    /// Destination container.
    pub dst_container: String,
    /// Ports to expose: an integer, a string or a record, or a sequence of those.
    pub expose_port: Vec<ExposePort>,
    /// External interface to target.
    pub external_network_interface: Option<String>,
    /// IPv4 source blocks, not validated; also accepted as `source_cidr`.
    pub source_cidr_v4: Option<Vec<String>>,
    /// IPv6 source blocks, not validated.
    pub source_cidr_v6: Option<Vec<String>>,
}

/// What a [`WiderWorldToContainerRule`] holds.
pub struct WiderWorldToContainerRuleModel {
    pub network: Seq<char>,
    pub dst_container: Seq<char>,
    pub expose_port: Seq<PortSpec>,
    pub external_network_interface: Option<Seq<char>>,
    pub source_cidr_v4: Option<Seq<Seq<char>>>,
    pub source_cidr_v6: Option<Seq<Seq<char>>>,
}

/// The keys a `WiderWorldToContainerRule` table accepts and the field each one fills.
pub open spec fn wider_world_to_container_rule_keys() -> Seq<(&'static str, usize)> {
    seq![
        ("network", 0usize),
        ("dst_container", 1usize),
        ("expose_port", 2usize),
        ("external_network_interface", 3usize),
        ("source_cidr_v4", 4usize),
        ("source_cidr_v6", 5usize),
        ("source_cidr", 4usize),
    ]
}

fn wider_world_to_container_rule_keys_exec() -> (r: Vec<(&'static str, usize)>)
    ensures
        r@ == wider_world_to_container_rule_keys(),
        schema_ok(r@, 6),
{
    let r = vec![
        ("network", 0usize),
        ("dst_container", 1usize),
        ("expose_port", 2usize),
        ("external_network_interface", 3usize),
        ("source_cidr_v4", 4usize),
        ("source_cidr_v6", 5usize),
        ("source_cidr", 4usize),
    ];
    assert(r@ =~= wider_world_to_container_rule_keys());
    r
}

/// A `WiderWorldToContainerRule` from the entries of its table, each field taken from the
/// entry its slot names; the first field that fails decides.
pub open spec fn spec_wider_world_to_container_rule_fields(es: Seq<(String, Value)>, sl: Seq<Option<usize>>) -> Result<
    WiderWorldToContainerRuleModel,
    DecodeErrorView,
> {
    let f0 = spec_required::<String>(es, sl[0], "network"@);
    let f1 = spec_required::<String>(es, sl[1], "dst_container"@);
    let f2 = spec_req_ports(es, sl[2], "expose_port"@);
    let f3 = spec_optional::<String>(es, sl[3], "external_network_interface"@);
    let f4 = spec_opt_strings(es, sl[4], "source_cidr_v4"@);
    let f5 = spec_opt_strings(es, sl[5], "source_cidr_v6"@);
    if f0 is Err {
        Err(f0->Err_0)
    } else if f1 is Err {
        Err(f1->Err_0)
    } else if f2 is Err {
        Err(f2->Err_0)
    } else if f3 is Err {
        Err(f3->Err_0)
    } else if f4 is Err {
        Err(f4->Err_0)
    } else if f5 is Err {
        Err(f5->Err_0)
    } else {
        Ok(
            WiderWorldToContainerRuleModel {
                network: f0->Ok_0,
                dst_container: f1->Ok_0,
                expose_port: f2->Ok_0,
                external_network_interface: f3->Ok_0,
                source_cidr_v4: f4->Ok_0,
                source_cidr_v6: f5->Ok_0,
            },
        )
    }
}

impl Decode for WiderWorldToContainerRule {
    type Model = WiderWorldToContainerRuleModel;

    open spec fn model(&self) -> WiderWorldToContainerRuleModel {
        WiderWorldToContainerRuleModel {
            network: self.network.model(),
            dst_container: self.dst_container.model(),
            expose_port: self.expose_port.model(),
            external_network_interface: opt_model(self.external_network_interface),
            source_cidr_v4: opt_model(self.source_cidr_v4),
            source_cidr_v6: opt_model(self.source_cidr_v6),
        }
    }

    open spec fn spec_decode(v: Value) -> Result<WiderWorldToContainerRuleModel, DecodeErrorView> {
        match v {
            Value::Table(es) => match gather(es@, wider_world_to_container_rule_keys(), 6) {
                Err(e) => Err(e),
                Ok(sl) => spec_wider_world_to_container_rule_fields(es@, sl),
            },
            _ => fault(ErrorKindView::InvalidType(Expected::Table)),
        }
    }

    fn decode(v: &Value) -> (r: Result<WiderWorldToContainerRule, DecodeError>) {
        let es = match v {
            Value::Table(es) => es,
            _ => {
                return Err(error_at(ErrorKind::InvalidType(Expected::Table)));
            },
        };
        let keys = wider_world_to_container_rule_keys_exec();
        let sl = match gather_fields(es, &keys, 6) {
            Ok(sl) => sl,
            Err(e) => {
                return Err(e);
            },
        };
        proof {
            lemma_gather_slots(es@, wider_world_to_container_rule_keys(), 6);
        }
        let network = match required::<String>(es, sl[0], "network") {
            Ok(x) => x,
            Err(e) => {
                return Err(e);
            },
        };
        let dst_container = match required::<String>(es, sl[1], "dst_container") {
            Ok(x) => x,
            Err(e) => {
                return Err(e);
            },
        };
        let expose_port = match req_ports(es, sl[2], "expose_port") {
            Ok(x) => x,
            Err(e) => {
                return Err(e);
            },
        };
        let external_network_interface = match optional::<String>(es, sl[3], "external_network_interface") {
            Ok(x) => x,
            Err(e) => {
                return Err(e);
            },
        };
        let source_cidr_v4 = match opt_strings(es, sl[4], "source_cidr_v4") {
            Ok(x) => x,
            Err(e) => {
                return Err(e);
            },
        };
        let source_cidr_v6 = match opt_strings(es, sl[5], "source_cidr_v6") {
            Ok(x) => x,
            Err(e) => {
                return Err(e);
            },
        };
        Ok(WiderWorldToContainerRule { network, dst_container, expose_port, external_network_interface, source_cidr_v4, source_cidr_v6 })
    }
}

/// Destination translation between containers on different networks.
#[derive(Clone, Debug, PartialEq, Eq, Hash)]
pub struct ContainerDNAT {
    /// The rules, in order.
    pub rules: Option<Vec<ContainerDNATRule>>,
}

/// What a [`ContainerDNAT`] holds.
pub struct ContainerDNATModel {
    pub rules: Option<Seq<ContainerDNATRuleModel>>,
}

/// The keys a `ContainerDNAT` table accepts and the field each one fills.
pub open spec fn container_dnat_keys() -> Seq<(&'static str, usize)> {
    seq![("rules", 0usize)]
}

fn container_dnat_keys_exec() -> (r: Vec<(&'static str, usize)>)
    ensures
        r@ == container_dnat_keys(),
        schema_ok(r@, 1),
{
    let r = vec![("rules", 0usize)];
    assert(r@ =~= container_dnat_keys());
    r
}

/// A `ContainerDNAT` from the entries of its table, each field taken from the
/// entry its slot names; the first field that fails decides.
pub open spec fn spec_container_dnat_fields(es: Seq<(String, Value)>, sl: Seq<Option<usize>>) -> Result<
    ContainerDNATModel,
    DecodeErrorView,
> {
    let f0 = spec_optional::<Vec<ContainerDNATRule>>(es, sl[0], "rules"@);
    if f0 is Err {
        Err(f0->Err_0)
    } else {
        Ok(
            ContainerDNATModel {
                rules: f0->Ok_0,
            },
        )
    }
}

impl Decode for ContainerDNAT {
    type Model = ContainerDNATModel;

    open spec fn model(&self) -> ContainerDNATModel {
        ContainerDNATModel {
            rules: opt_model(self.rules),
        }
    }

    open spec fn spec_decode(v: Value) -> Result<ContainerDNATModel, DecodeErrorView> {
        match v {
            Value::Table(es) => match gather(es@, container_dnat_keys(), 1) {
                Err(e) => Err(e),
                Ok(sl) => spec_container_dnat_fields(es@, sl),
            },
            _ => fault(ErrorKindView::InvalidType(Expected::Table)),
        }
    }

    fn decode(v: &Value) -> (r: Result<ContainerDNAT, DecodeError>) {
        let es = match v {
            Value::Table(es) => es,
            _ => {
                return Err(error_at(ErrorKind::InvalidType(Expected::Table)));
            },
        };
        let keys = container_dnat_keys_exec();
        let sl = match gather_fields(es, &keys, 1) {
            Ok(sl) => sl,
            Err(e) => {
                return Err(e);
            },
        };
        proof {
            lemma_gather_slots(es@, container_dnat_keys(), 1);
        }
        let rules = match optional::<Vec<ContainerDNATRule>>(es, sl[0], "rules") {
            Ok(x) => x,
            Err(e) => {
                return Err(e);
            },
        };
        Ok(ContainerDNAT { rules })
    }
}

/// A destination translation rule.
#[derive(Clone, Debug, PartialEq, Eq, Hash)]
pub struct ContainerDNATRule {
    /// Network of the source container.
    pub src_network: Option<String>,
    /// Source container.
    pub src_container: Option<String>,
    /// Network of the destination container.
    pub dst_network: String,
    /// Destination container.
    pub dst_container: String,
    /// Ports to translate: an integer, a string or a record, or a sequence of those.
    pub expose_port: Vec<ExposePort>,
}

/// What a [`ContainerDNATRule`] holds.
pub struct ContainerDNATRuleModel {
    pub src_network: Option<Seq<char>>,
    pub src_container: Option<Seq<char>>,
    pub dst_network: Seq<char>,
    pub dst_container: Seq<char>,
    pub expose_port: Seq<PortSpec>,
}

/// The keys a `ContainerDNATRule` table accepts and the field each one fills.
pub open spec fn container_dnat_rule_keys() -> Seq<(&'static str, usize)> {
    seq![
        ("src_network", 0usize),
        ("src_container", 1usize),
        ("dst_network", 2usize),
        ("dst_container", 3usize),
        ("expose_port", 4usize),
    ]
}

fn container_dnat_rule_keys_exec() -> (r: Vec<(&'static str, usize)>)
    ensures
        r@ == container_dnat_rule_keys(),
        schema_ok(r@, 5),
{
    let r = vec![
        ("src_network", 0usize),
        ("src_container", 1usize),
        ("dst_network", 2usize),
        ("dst_container", 3usize),
        ("expose_port", 4usize),
    ];
    assert(r@ =~= container_dnat_rule_keys());
    r
}

/// A `ContainerDNATRule` from the entries of its table, each field taken from the
/// entry its slot names; the first field that fails decides.
pub open spec fn spec_container_dnat_rule_fields(es: Seq<(String, Value)>, sl: Seq<Option<usize>>) -> Result<
    ContainerDNATRuleModel,
    DecodeErrorView,
> {
    let f0 = spec_optional::<String>(es, sl[0], "src_network"@);
    let f1 = spec_optional::<String>(es, sl[1], "src_container"@);
    let f2 = spec_required::<String>(es, sl[2], "dst_network"@);
    let f3 = spec_required::<String>(es, sl[3], "dst_container"@);
    let f4 = spec_req_ports(es, sl[4], "expose_port"@);
    if f0 is Err {
        Err(f0->Err_0)
    } else if f1 is Err {
        Err(f1->Err_0)
    } else if f2 is Err {
        Err(f2->Err_0)
    } else if f3 is Err {
        Err(f3->Err_0)
    } else if f4 is Err {
        Err(f4->Err_0)
    } else {
        Ok(
            ContainerDNATRuleModel {
                src_network: f0->Ok_0,
                src_container: f1->Ok_0,
                dst_network: f2->Ok_0,
                dst_container: f3->Ok_0,
                expose_port: f4->Ok_0,
            },
        )
    }
}

impl Decode for ContainerDNATRule {
    type Model = ContainerDNATRuleModel;

    open spec fn model(&self) -> ContainerDNATRuleModel {
        ContainerDNATRuleModel {
            src_network: opt_model(self.src_network),
            src_container: opt_model(self.src_container),
            dst_network: self.dst_network.model(),
            dst_container: self.dst_container.model(),
            expose_port: self.expose_port.model(),
        }
    }

    open spec fn spec_decode(v: Value) -> Result<ContainerDNATRuleModel, DecodeErrorView> {
        match v {
            Value::Table(es) => match gather(es@, container_dnat_rule_keys(), 5) {
                Err(e) => Err(e),
                Ok(sl) => spec_container_dnat_rule_fields(es@, sl),
            },
            _ => fault(ErrorKindView::InvalidType(Expected::Table)),
        }
    }

    fn decode(v: &Value) -> (r: Result<ContainerDNATRule, DecodeError>) {
        let es = match v {
            Value::Table(es) => es,
            _ => {
                return Err(error_at(ErrorKind::InvalidType(Expected::Table)));
            },
        };
        let keys = container_dnat_rule_keys_exec();
        let sl = match gather_fields(es, &keys, 5) {
            Ok(sl) => sl,
            Err(e) => {
                return Err(e);
            },
        };
        proof {
            lemma_gather_slots(es@, container_dnat_rule_keys(), 5);
        }
        let src_network = match optional::<String>(es, sl[0], "src_network") {
            Ok(x) => x,
            Err(e) => {
                return Err(e);
            },
        };
        let src_container = match optional::<String>(es, sl[1], "src_container") {
            Ok(x) => x,
            Err(e) => {
                return Err(e);
            },
        };
        let dst_network = match required::<String>(es, sl[2], "dst_network") {
            Ok(x) => x,
            Err(e) => {
                return Err(e);
            },
        };
        let dst_container = match required::<String>(es, sl[3], "dst_container") {
            Ok(x) => x,
            Err(e) => {
                return Err(e);
            },
        };
        let expose_port = match req_ports(es, sl[4], "expose_port") {
            Ok(x) => x,
            Err(e) => {
                return Err(e);
            },
        };
        Ok(ContainerDNATRule { src_network, src_container, dst_network, dst_container, expose_port })
    }
}
} // verus!
