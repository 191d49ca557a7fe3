//! Normalizers: one field written as a single item or as a sequence of items
//! becomes one ordered list.

use vstd::prelude::*;
use crate::decode::{
    Decode, DecodeError, DecodeErrorView, ErrorKind, ErrorKindView, Expected, decode_all,
    decode_items, error_at, fault, gather, gather_fields, key_slot, law_undeclared_key_rejected,
    lemma_gather_slots, models, optional, required, schema_ok, spec_optional, spec_required,
};
use crate::port::{ExposePort, PortSpec, int_text, integer_text, spec_parse_port, tcp};
use crate::value::Value;

verus! {

/// The keys of a port record and the slot each one fills.
pub open spec fn port_schema() -> Seq<(&'static str, usize)> {
    seq![("host_port", 0usize), ("container_port", 1usize), ("family", 2usize)]
}

fn port_schema_exec() -> (r: Vec<(&'static str, usize)>)
    ensures
        r@ == port_schema(),
        schema_ok(r@, 3),
{
    let r = vec![("host_port", 0usize), ("container_port", 1usize), ("family", 2usize)];
    assert(r@ =~= port_schema());
    r
}

/// A port record from its gathered fields: the host port is required, the
/// container port stays absent when absent, the family defaults to `tcp`.
pub open spec fn spec_port_record(es: Seq<(String, Value)>, sl: Seq<Option<usize>>) -> Result<
    PortSpec,
    DecodeErrorView,
> {
    let h = spec_required::<u16>(es, sl[0], "host_port"@);
    let c = spec_optional::<u16>(es, sl[1], "container_port"@);
    let f = spec_optional::<String>(es, sl[2], "family"@);
    if h is Err {
        Err(h->Err_0)
    } else if c is Err {
        Err(c->Err_0)
    } else if f is Err {
        Err(f->Err_0)
    } else {
        Ok(
            PortSpec {
                host_port: h->Ok_0,
                container_port: c->Ok_0,
                family: match f->Ok_0 {
                    Some(x) => x,
                    None => tcp(),
                },
            },
        )
    }
}

impl Decode for ExposePort {
    type Model = PortSpec;

    open spec fn model(&self) -> PortSpec {
        self@
    }

    open spec fn spec_decode(v: Value) -> Result<PortSpec, DecodeErrorView> {
        match v {
            Value::Table(es) => match gather(es@, port_schema(), 3) {
                Err(e) => Err(e),
                Ok(sl) => spec_port_record(es@, sl),
            },
            _ => fault(ErrorKindView::InvalidType(Expected::Table)),
        }
    }

    fn decode(v: &Value) -> (r: Result<ExposePort, DecodeError>) {
        let es = match v {
            Value::Table(es) => es,
            _ => {
                return Err(error_at(ErrorKind::InvalidType(Expected::Table)));
            },
        };
        let schema = port_schema_exec();
        let sl = match gather_fields(es, &schema, 3) {
            Ok(sl) => sl,
            Err(e) => {
                return Err(e);
            },
        };
        proof {
            lemma_gather_slots(es@, port_schema(), 3);
        }
        let host_port = match required::<u16>(es, sl[0], "host_port") {
            Ok(h) => h,
            Err(e) => {
                return Err(e);
            },
        };
        let container_port = match optional::<u16>(es, sl[1], "container_port") {
            Ok(c) => c,
            Err(e) => {
                return Err(e);
            },
        };
        let family = match optional::<String>(es, sl[2], "family") {
            Ok(Some(f)) => f,
            Ok(None) => crate::port::default_expose_port_family(),
            Err(e) => {
                return Err(e);
            },
        };
        Ok(ExposePort { host_port, container_port, family })
    }
}

/// A port record with a key other than `host_port`, `container_port` and
/// `family` fails to decode.
pub proof fn law_port_record_closed(v: Value, i: int)
    requires
        v matches Value::Table(es) && 0 <= i < es@.len() && key_slot(port_schema(), es@[i].0@)
            is None,
    ensures
        ExposePort::spec_decode(v) is Err,
{
    law_undeclared_key_rejected(v->Table_0@, port_schema(), 3, i);
}

/// A port given as a string, an integer (read as its decimal text) or a record.
pub open spec fn spec_port_item(v: Value) -> Result<PortSpec, DecodeErrorView> {
    match v {
        Value::Integer(n) => match spec_parse_port(int_text(n as int)) {
            Ok(p) => Ok(p),
            Err(e) => fault(ErrorKindView::Port(e)),
        },
        Value::Str(s) => match spec_parse_port(s@) {
            Ok(p) => Ok(p),
            Err(e) => fault(ErrorKindView::Port(e)),
        },
        Value::Table(_) => ExposePort::spec_decode(v),
        _ => fault(ErrorKindView::InvalidType(Expected::PortItem)),
    }
}

/// Each item read as a port, in order; the first failure decides.
pub open spec fn spec_port_items(items: Seq<Value>) -> Result<Seq<PortSpec>, DecodeErrorView>
    decreases items.len(),
{
    if items.len() == 0 {
        Ok(Seq::empty())
    } else {
        match spec_port_items(items.drop_last()) {
            Err(e) => Err(e),
            Ok(p) => match spec_port_item(items.last()) {
                Err(e) => Err(e),
                Ok(m) => Ok(p.push(m)),
            },
        }
    }
}

/// A port field: a single integer, string or record gives a list of one; a
/// sequence of those gives one port each, in order.
pub open spec fn spec_port_list(v: Value) -> Result<Seq<PortSpec>, DecodeErrorView> {
    match v {
        Value::Array(items) => spec_port_items(items@),
        Value::Integer(_) | Value::Str(_) | Value::Table(_) => match spec_port_item(v) {
            Ok(p) => Ok(seq![p]),
            Err(e) => Err(e),
        },
        _ => fault(ErrorKindView::InvalidType(Expected::PortOrPorts)),
    }
}

fn port_error(e: crate::port::PortError) -> (r: DecodeError)
    ensures
        r@ == (DecodeErrorView { path: Seq::empty(), kind: ErrorKindView::Port(e@) }),
{
    error_at(ErrorKind::Port(e))
}

/// Reads one port from an integer, a string or a record.
pub fn string_or_struct(v: &Value) -> (r: Result<ExposePort, DecodeError>)
    ensures
        match spec_port_item(*v) {
            Ok(m) => r matches Ok(x) && x@ == m,
            Err(e) => r matches Err(x) && x@ == e,
        },
{
    match v {
        Value::Integer(n) => {
            let text = integer_text(*n);
            match ExposePort::from_str(text.as_str()) {
                Ok(p) => Ok(p),
                Err(e) => Err(port_error(e)),
            }
        },
        Value::Str(s) => match ExposePort::from_str(s.as_str()) {
            Ok(p) => Ok(p),
            Err(e) => Err(port_error(e)),
        },
        Value::Table(_) => ExposePort::decode(v),
        _ => Err(error_at(ErrorKind::InvalidType(Expected::PortItem))),
    }
}

/// Reads each item of a sequence as a port, in order.
fn port_items(items: &Vec<Value>) -> (r: Result<Vec<ExposePort>, DecodeError>)
    ensures
        match spec_port_items(items@) {
            Ok(m) => r matches Ok(x) && models(x@) == m,
            Err(e) => r matches Err(x) && x@ == e,
        },
{
    let mut out: Vec<ExposePort> = Vec::new();
    let mut i: usize = 0;
    assert(items@.take(0) =~= Seq::<Value>::empty());
    assert(models(out@) =~= Seq::<PortSpec>::empty());
    while i < items.len()
        invariant
            i <= items@.len(),
            spec_port_items(items@.take(i as int)) == Ok::<Seq<PortSpec>, DecodeErrorView>(
                models(out@),
            ),
        decreases items@.len() - i,
    {
        assert(items@.take(i + 1).drop_last() =~= items@.take(i as int));
        assert(items@.take(i + 1).last() == items@[i as int]);
        match string_or_struct(&items[i]) {
            Ok(x) => {
                let ghost before = out@;
                out.push(x);
                assert(models(out@) =~= models(before).push(x@));
            },
            Err(e) => {
                proof {
                    lemma_port_items_err(items@, i + 1);
                }
                return Err(e);
            },
        }
        i = i + 1;
    }
    assert(items@.take(items@.len() as int) =~= items@);
    Ok(out)
}

/// Reads a port field written as one item or as a sequence of items.
pub fn single_or_seq_string_or_struct(v: &Value) -> (r: Result<Vec<ExposePort>, DecodeError>)
    ensures
        match spec_port_list(*v) {
            Ok(m) => r matches Ok(x) && models(x@) == m,
            Err(e) => r matches Err(x) && x@ == e,
        },
{
    match v {
        Value::Array(items) => port_items(items),
        Value::Integer(_) | Value::Str(_) | Value::Table(_) => match string_or_struct(v) {
            Ok(p) => {
                let out = vec![p];
                assert(models(out@) =~= seq![p@]);
                Ok(out)
            },
            Err(e) => Err(e),
        },
        _ => Err(error_at(ErrorKind::InvalidType(Expected::PortOrPorts))),
    }
}

proof fn lemma_port_items_err(items: Seq<Value>, k: int)
    requires
        0 <= k <= items.len(),
        spec_port_items(items.take(k)) is Err,
    ensures
        spec_port_items(items) == spec_port_items(items.take(k)),
    decreases items.len(),
{
    if k == items.len() {
        assert(items.take(k) =~= items);
    } else {
        assert(items.drop_last().take(k) =~= items.take(k));
        lemma_port_items_err(items.drop_last(), k);
    }
}

/// A sequence made only of port records normalizes to exactly the ports those
/// records decode to, in order: a normalized list comes back unchanged.
pub proof fn law_port_records_unchanged(v: Value, ports: Seq<PortSpec>)
    requires
        v matches Value::Array(items) && items@.len() == ports.len() && forall|i: int|
            0 <= i < ports.len() ==> (#[trigger] items@[i]) is Table
                && ExposePort::spec_decode(items@[i]) == Ok::<PortSpec, DecodeErrorView>(
                ports[i],
            ),
    ensures
        spec_port_list(v) == Ok::<Seq<PortSpec>, DecodeErrorView>(ports),
{
    let items = v->Array_0@;
    lemma_port_records(items, ports);
}

proof fn lemma_port_records(items: Seq<Value>, ports: Seq<PortSpec>)
    requires
        items.len() == ports.len(),
        forall|i: int|
            0 <= i < ports.len() ==> (#[trigger] items[i]) is Table && ExposePort::spec_decode(
                items[i],
            ) == Ok::<PortSpec, DecodeErrorView>(ports[i]),
    ensures
        spec_port_items(items) == Ok::<Seq<PortSpec>, DecodeErrorView>(ports),
    decreases items.len(),
{
    if items.len() == 0 {
        assert(ports =~= Seq::<PortSpec>::empty());
    } else {
        let n = items.len() - 1;
        assert forall|i: int| 0 <= i < ports.drop_last().len() implies (
        #[trigger] items.drop_last()[i]) is Table && ExposePort::spec_decode(items.drop_last()[i])
            == Ok::<PortSpec, DecodeErrorView>(ports.drop_last()[i]) by {
            assert(items.drop_last()[i] == items[i]);
        }
        lemma_port_records(items.drop_last(), ports.drop_last());
        assert(items[n] is Table);
        assert(ports.drop_last().push(ports.last()) =~= ports);
    }
}

/// A scalar-list field: one string gives a list of that string; a sequence
/// of strings gives those strings, in order.
pub open spec fn spec_string_list(v: Value) -> Result<Seq<Seq<char>>, DecodeErrorView> {
    match v {
        Value::Str(s) => Ok(seq![s@]),
        Value::Array(items) => decode_all::<String>(items@),
        _ => fault(ErrorKindView::InvalidType(Expected::StringOrStrings)),
    }
}

/// Reads a field written as one string or as a sequence of strings.
pub fn string_or_seq_string(v: &Value) -> (r: Result<Vec<String>, DecodeError>)
    ensures
        match spec_string_list(*v) {
            Ok(m) => r matches Ok(x) && models(x@) == m,
            Err(e) => r matches Err(x) && x@ == e,
        },
{
    match v {
        Value::Str(s) => {
            let out = vec![s.clone()];
            assert(models(out@) =~= seq![s@]);
            Ok(out)
        },
        Value::Array(items) => decode_items::<String>(items),
        _ => Err(error_at(ErrorKind::InvalidType(Expected::StringOrStrings))),
    }
}

/// [`string_or_seq_string`] for a field that is present.
pub fn option_string_or_seq_string(v: &Value) -> (r: Result<Option<Vec<String>>, DecodeError>)
    ensures
        match spec_string_list(*v) {
            Ok(m) => r matches Ok(Some(x)) && models(x@) == m,
            Err(e) => r matches Err(x) && x@ == e,
        },
{
    match string_or_seq_string(v) {
        Ok(x) => Ok(Some(x)),
        Err(e) => Err(e),
    }
}

/// `v` is the string `s`.
pub open spec fn is_text(v: Value, s: Seq<char>) -> bool {
    v matches Value::Str(x) && x@ == s
}

/// A sequence of strings normalizes to those strings, unchanged and in order.
pub proof fn law_string_list_unchanged(v: Value, strings: Seq<Seq<char>>)
    requires
        v matches Value::Array(items) && items@.len() == strings.len() && forall|i: int|
            0 <= i < strings.len() ==> is_text(#[trigger] items@[i], strings[i]),
    ensures
        spec_string_list(v) == Ok::<Seq<Seq<char>>, DecodeErrorView>(strings),
{
    lemma_strings(v->Array_0@, strings);
}

proof fn lemma_strings(items: Seq<Value>, strings: Seq<Seq<char>>)
    requires
        items.len() == strings.len(),
        forall|i: int|
            0 <= i < strings.len() ==> is_text(#[trigger] items[i], strings[i]),
    ensures
        decode_all::<String>(items) == Ok::<Seq<Seq<char>>, DecodeErrorView>(strings),
    decreases items.len(),
{
    if items.len() == 0 {
        assert(strings =~= Seq::<Seq<char>>::empty());
    } else {
        assert forall|i: int| 0 <= i < strings.drop_last().len() implies is_text(
        #[trigger] items.drop_last()[i], strings.drop_last()[i]) by {
            assert(items.drop_last()[i] == items[i]);
        }
        lemma_strings(items.drop_last(), strings.drop_last());
        assert(is_text(items[items.len() - 1], strings.last()));
        assert(strings.drop_last().push(strings.last()) =~= strings);
    }
}

/// A record-list field: one record gives a list of one; a sequence gives
/// each element decoded as a record, in order.
pub open spec fn spec_struct_list<T: Decode>(v: Value) -> Result<Seq<T::Model>, DecodeErrorView> {
    match v {
        Value::Table(_) => match T::spec_decode(v) {
            Ok(m) => Ok(seq![m]),
            Err(e) => Err(e),
        },
        Value::Array(items) => decode_all::<T>(items@),
        _ => fault(ErrorKindView::InvalidType(Expected::TableOrTables)),
    }
}

/// Reads a field written as one record or as a sequence of records.
pub fn struct_or_seq_struct<T: Decode>(v: &Value) -> (r: Result<Vec<T>, DecodeError>)
    ensures
        match spec_struct_list::<T>(*v) {
            Ok(m) => r matches Ok(x) && models(x@) == m,
            Err(e) => r matches Err(x) && x@ == e,
        },
{
    match v {
        Value::Table(_) => match T::decode(v) {
            Ok(x) => {
                let out = vec![x];
                assert(models(out@) =~= seq![x.model()]);
                Ok(out)
            },
            Err(e) => Err(e),
        },
        Value::Array(items) => decode_items::<T>(items),
        _ => Err(error_at(ErrorKind::InvalidType(Expected::TableOrTables))),
    }
}

/// [`struct_or_seq_struct`] for a field that is present.
pub fn option_struct_or_seq_struct<T: Decode>(v: &Value) -> (r: Result<Option<Vec<T>>, DecodeError>)
    ensures
        match spec_struct_list::<T>(*v) {
            Ok(m) => r matches Ok(Some(x)) && models(x@) == m,
            Err(e) => r matches Err(x) && x@ == e,
        },
{
    match struct_or_seq_struct::<T>(v) {
        Ok(x) => Ok(Some(x)),
        Err(e) => Err(e),
    }
}

/// One record and a sequence holding just that record normalize alike.
pub proof fn law_single_record_as_list<T: Decode>(record: Value, list: Value)
    requires
        record is Table,
        list matches Value::Array(items) && items@ == seq![record],
    ensures
        spec_struct_list::<T>(record) == spec_struct_list::<T>(list),
{
    let items = list->Array_0@;
    assert(items.drop_last() =~= Seq::<Value>::empty());
    assert(items.last() == record);
    assert(decode_all::<T>(items.drop_last()) == Ok::<Seq<T::Model>, DecodeErrorView>(
        Seq::empty(),
    ));
    assert(Seq::<T::Model>::empty().push(T::spec_decode(record)->Ok_0) =~= seq![
        T::spec_decode(record)->Ok_0,
    ]);
}

} // verus!
