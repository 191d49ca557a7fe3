//! Decoding of document nodes into typed values, with closed-world tables and
//! the normalizers that accept a single item where a list is expected.

use vstd::prelude::*;
use crate::port::{PortError, PortErrorView};
use crate::value::Value;

verus! {

/// The shape or value a decoder wanted.
#[derive(Clone, Copy, Debug, PartialEq, Eq, Structural)]
pub enum Expected {
    Str,
    Integer,
    Boolean,
    /// An integer from 0 to 65535.
    PortNumber,
    Table,
    Array,
    /// `accept`, `drop` or `reject`.
    Verdict,
    /// `accept` or `drop`.
    Policy,
    StringOrStrings,
    TableOrTables,
    /// An integer, a string or a table.
    PortItem,
    /// An integer, a string or a table, or a sequence of those.
    PortOrPorts,
}

/// What went wrong, without where.
#[derive(Clone, Debug, PartialEq, Eq)]
pub enum ErrorKind {
    /// The node has the wrong shape.
    InvalidType(Expected),
    /// The node has the right shape and a value out of range.
    InvalidValue(Expected),
    /// A table holds a key that its record does not declare.
    UnknownField(String),
    /// A table names one field twice, directly or through an alias.
    DuplicateField(String),
    /// A required field is absent.
    MissingField(String),
    /// A port string that does not follow the grammar.
    Port(PortError),
}

/// A decoding failure: the field names leading to the node, outermost first,
/// and what went wrong there.
#[derive(Clone, Debug, PartialEq, Eq)]
pub struct DecodeError {
    pub path: Vec<String>,
    pub kind: ErrorKind,
}

pub enum ErrorKindView {
    InvalidType(Expected),
    InvalidValue(Expected),
    UnknownField(Seq<char>),
    DuplicateField(Seq<char>),
    MissingField(Seq<char>),
    Port(PortErrorView),
}

pub struct DecodeErrorView {
    pub path: Seq<Seq<char>>,
    pub kind: ErrorKindView,
}

impl View for ErrorKind {
    type V = ErrorKindView;

    open spec fn view(&self) -> ErrorKindView {
        match self {
            ErrorKind::InvalidType(x) => ErrorKindView::InvalidType(*x),
            ErrorKind::InvalidValue(x) => ErrorKindView::InvalidValue(*x),
            ErrorKind::UnknownField(k) => ErrorKindView::UnknownField(k@),
            ErrorKind::DuplicateField(k) => ErrorKindView::DuplicateField(k@),
            ErrorKind::MissingField(k) => ErrorKindView::MissingField(k@),
            ErrorKind::Port(e) => ErrorKindView::Port(e@),
        }
    }
}

impl View for DecodeError {
    type V = DecodeErrorView;

    open spec fn view(&self) -> DecodeErrorView {
        DecodeErrorView { path: self.path@.map_values(|s: String| s@), kind: self.kind@ }
    }
}

/// An error at the node itself.
pub open spec fn fault<T>(kind: ErrorKindView) -> Result<T, DecodeErrorView> {
    Err(DecodeErrorView { path: Seq::empty(), kind })
}

/// `r`, with an error moved under the field `name`.
pub open spec fn under<T>(name: Seq<char>, r: Result<T, DecodeErrorView>) -> Result<
    T,
    DecodeErrorView,
> {
    match r {
        Ok(x) => Ok(x),
        Err(e) => Err(DecodeErrorView { path: seq![name] + e.path, kind: e.kind }),
    }
}

pub fn error_at(kind: ErrorKind) -> (r: DecodeError)
    ensures
        r@ == (DecodeErrorView { path: Seq::empty(), kind: kind@ }),
{
    let r = DecodeError { path: Vec::new(), kind };
    assert(r@.path =~= Seq::<Seq<char>>::empty());
    r
}

/// Moves `e` under the field `name`.
pub fn nest(name: &str, e: DecodeError) -> (r: DecodeError)
    ensures
        r@ == (DecodeErrorView { path: seq![name@] + e@.path, kind: e@.kind }),
{
    let mut path = e.path;
    path.insert(0, String::from_str(name));
    let r = DecodeError { path, kind: e.kind };
    assert(r@.path =~= seq![name@] + e@.path);
    r
}

/// Text equality of two string slices.
pub fn same_text(a: &str, b: &str) -> (r: bool)
    ensures
        r == (a@ == b@),
{
    let x = String::from_str(a);
    let y = String::from_str(b);
    x.eq(&y)
}

/// A type that a document node decodes into, with the model its values have.
pub trait Decode: Sized {
    type Model;

    spec fn model(&self) -> Self::Model;

    /// What decoding `v` gives.
    spec fn spec_decode(v: Value) -> Result<Self::Model, DecodeErrorView>;

    fn decode(v: &Value) -> (r: Result<Self, DecodeError>)
        ensures
            match Self::spec_decode(*v) {
                Ok(m) => r matches Ok(x) && x.model() == m,
                Err(e) => r matches Err(x) && x@ == e,
            },
    ;
}

impl Decode for String {
    type Model = Seq<char>;

    open spec fn model(&self) -> Seq<char> {
        self@
    }

    open spec fn spec_decode(v: Value) -> Result<Seq<char>, DecodeErrorView> {
        match v {
            Value::Str(s) => Ok(s@),
            _ => fault(ErrorKindView::InvalidType(Expected::Str)),
        }
    }

    fn decode(v: &Value) -> (r: Result<String, DecodeError>) {
        match v {
            Value::Str(s) => Ok(s.clone()),
            _ => Err(error_at(ErrorKind::InvalidType(Expected::Str))),
        }
    }
}

impl Decode for u16 {
    type Model = u16;

    open spec fn model(&self) -> u16 {
        *self
    }

    open spec fn spec_decode(v: Value) -> Result<u16, DecodeErrorView> {
        match v {
            Value::Integer(n) => if 0 <= n <= 65535 {
                Ok(n as u16)
            } else {
                fault(ErrorKindView::InvalidValue(Expected::PortNumber))
            },
            _ => fault(ErrorKindView::InvalidType(Expected::Integer)),
        }
    }

    fn decode(v: &Value) -> (r: Result<u16, DecodeError>) {
        match v {
            Value::Integer(n) => if 0 <= *n && *n <= 65535 {
                Ok(*n as u16)
            } else {
                Err(error_at(ErrorKind::InvalidValue(Expected::PortNumber)))
            },
            _ => Err(error_at(ErrorKind::InvalidType(Expected::Integer))),
        }
    }
}

/// The models of `xs`.
pub open spec fn models<T: Decode>(xs: Seq<T>) -> Seq<T::Model> {
    xs.map_values(|x: T| x.model())
}

/// The model of an optional value.
pub open spec fn opt_model<T: Decode>(o: Option<T>) -> Option<T::Model> {
    match o {
        Some(x) => Some(x.model()),
        None => None,
    }
}

/// Decodes each item in order; the first failure decides.
pub open spec fn decode_all<T: Decode>(items: Seq<Value>) -> Result<Seq<T::Model>, DecodeErrorView>
    decreases items.len(),
{
    if items.len() == 0 {
        Ok(Seq::empty())
    } else {
        match decode_all::<T>(items.drop_last()) {
            Err(e) => Err(e),
            Ok(p) => match T::spec_decode(items.last()) {
                Err(e) => Err(e),
                Ok(m) => Ok(p.push(m)),
            },
        }
    }
}

/// Decodes the items of a sequence node one by one.
pub fn decode_items<T: Decode>(items: &Vec<Value>) -> (r: Result<Vec<T>, DecodeError>)
    ensures
        match decode_all::<T>(items@) {
            Ok(m) => r matches Ok(x) && models(x@) == m,
            Err(e) => r matches Err(x) && x@ == e,
        },
{
    let mut out: Vec<T> = Vec::new();
    let mut i: usize = 0;
    assert(items@.take(0) =~= Seq::<Value>::empty());
    assert(models(out@) =~= Seq::<T::Model>::empty());
    while i < items.len()
        invariant
            i <= items@.len(),
            decode_all::<T>(items@.take(i as int)) == Ok::<Seq<T::Model>, DecodeErrorView>(
                models(out@),
            ),
        decreases items@.len() - i,
    {
        assert(items@.take(i + 1).drop_last() =~= items@.take(i as int));
        assert(items@.take(i + 1).last() == items@[i as int]);
        match T::decode(&items[i]) {
            Ok(x) => {
                let ghost before = out@;
                out.push(x);
                assert(models(out@) =~= models(before).push(x.model()));
            },
            Err(e) => {
                proof {
                    lemma_decode_all_err::<T>(items@, i + 1);
                }
                return Err(e);
            },
        }
        i = i + 1;
    }
    assert(items@.take(items@.len() as int) =~= items@);
    Ok(out)
}

proof fn lemma_decode_all_err<T: Decode>(items: Seq<Value>, k: int)
    requires
        0 <= k <= items.len(),
        decode_all::<T>(items.take(k)) is Err,
    ensures
        decode_all::<T>(items) == decode_all::<T>(items.take(k)),
    decreases items.len(),
{
    if k == items.len() {
        assert(items.take(k) =~= items);
    } else {
        assert(items.drop_last().take(k) =~= items.take(k));
        lemma_decode_all_err::<T>(items.drop_last(), k);
    }
}

impl<T: Decode> Decode for Vec<T> {
    type Model = Seq<T::Model>;

    open spec fn model(&self) -> Seq<T::Model> {
        models(self@)
    }

    open spec fn spec_decode(v: Value) -> Result<Seq<T::Model>, DecodeErrorView> {
        match v {
            Value::Array(items) => decode_all::<T>(items@),
            _ => fault(ErrorKindView::InvalidType(Expected::Array)),
        }
    }

    fn decode(v: &Value) -> (r: Result<Vec<T>, DecodeError>) {
        match v {
            Value::Array(items) => decode_items(items),
            _ => Err(error_at(ErrorKind::InvalidType(Expected::Array))),
        }
    }
}

// Closed-world tables.
/// The slot that `key` fills in a record whose accepted keys are `schema`.
pub open spec fn key_slot(schema: Seq<(&str, usize)>, key: Seq<char>) -> Option<usize>
    decreases schema.len(),
{
    if schema.len() == 0 {
        None
    } else if schema[0].0@ == key {
        Some(schema[0].1)
    } else {
        key_slot(schema.drop_first(), key)
    }
}

/// Assigns each entry of a table to the slot its key names, in order; an
/// undeclared key, or a slot named twice, fails.
pub open spec fn gather(
    es: Seq<(String, Value)>,
    schema: Seq<(&str, usize)>,
    n: nat,
) -> Result<Seq<Option<usize>>, DecodeErrorView>
    decreases es.len(),
{
    if es.len() == 0 {
        Ok(Seq::new(n, |i: int| None))
    } else {
        match gather(es.drop_last(), schema, n) {
            Err(e) => Err(e),
            Ok(slots) => {
                let k = es.last().0@;
                match key_slot(schema, k) {
                    None => fault(ErrorKindView::UnknownField(k)),
                    Some(j) => if slots[j as int] is Some {
                        fault(ErrorKindView::DuplicateField(k))
                    } else {
                        Ok(slots.update(j as int, Some((es.len() - 1) as usize)))
                    },
                }
            },
        }
    }
}

pub open spec fn schema_ok(schema: Seq<(&str, usize)>, n: nat) -> bool {
    forall|i: int| 0 <= i < schema.len() ==> (#[trigger] schema[i]).1 < n
}

proof fn lemma_key_slot_bound(schema: Seq<(&str, usize)>, n: nat, key: Seq<char>)
    requires
        schema_ok(schema, n),
    ensures
        key_slot(schema, key) matches Some(j) ==> j < n,
    decreases schema.len(),
{
    if schema.len() > 0 {
        assert(schema_ok(schema.drop_first(), n)) by {
            assert forall|i: int| 0 <= i < schema.drop_first().len() implies (
            #[trigger] schema.drop_first()[i]).1 < n by {
                assert(schema.drop_first()[i] == schema[i + 1]);
            }
        }
        lemma_key_slot_bound(schema.drop_first(), n, key);
    }
}

fn find_slot(schema: &Vec<(&'static str, usize)>, key: &String) -> (r: Option<usize>)
    ensures
        r == key_slot(schema@, key@),
{
    let mut i: usize = 0;
    assert(schema@.skip(0) =~= schema@);
    while i < schema.len()
        invariant
            i <= schema@.len(),
            key_slot(schema@, key@) == key_slot(schema@.skip(i as int), key@),
        decreases schema@.len() - i,
    {
        assert(schema@.skip(i as int).drop_first() =~= schema@.skip(i + 1));
        let (name, slot) = schema[i];
        if same_text(name, key.as_str()) {
            return Some(slot);
        }
        i = i + 1;
    }
    None
}

/// Assigns the entries of a table to the slots of its record.
pub fn gather_fields(es: &Vec<(String, Value)>, schema: &Vec<(&'static str, usize)>, n: usize) -> (r:
    Result<Vec<Option<usize>>, DecodeError>)
    requires
        schema_ok(schema@, n as nat),
    ensures
        match gather(es@, schema@, n as nat) {
            Ok(s) => r matches Ok(x) && x@ == s,
            Err(e) => r matches Err(x) && x@ == e,
        },
{
    let mut slots: Vec<Option<usize>> = Vec::new();
    let mut j: usize = 0;
    while j < n
        invariant
            j <= n,
            slots@ == Seq::new(j as nat, |i: int| None::<usize>),
        decreases n - j,
    {
        slots.push(None);
        j = j + 1;
        assert(slots@ =~= Seq::new(j as nat, |i: int| None::<usize>));
    }
    let mut i: usize = 0;
    assert(es@.take(0) =~= Seq::<(String, Value)>::empty());
    while i < es.len()
        invariant
            i <= es@.len(),
            schema_ok(schema@, n as nat),
            gather(es@.take(i as int), schema@, n as nat) == Ok::<
                Seq<Option<usize>>,
                DecodeErrorView,
            >(slots@),
            slots@.len() == n,
        decreases es@.len() - i,
    {
        assert(es@.take(i + 1).drop_last() =~= es@.take(i as int));
        assert(es@.take(i + 1).last() == es@[i as int]);
        let key = &es[i].0;
        proof {
            lemma_key_slot_bound(schema@, n as nat, key@);
        }
        match find_slot(schema, key) {
            None => {
                proof {
                    lemma_gather_err(es@, schema@, n as nat, i + 1);
                }
                return Err(error_at(ErrorKind::UnknownField(key.clone())));
            },
            Some(s) => {
                if slots[s].is_some() {
                    proof {
                        lemma_gather_err(es@, schema@, n as nat, i + 1);
                    }
                    return Err(error_at(ErrorKind::DuplicateField(key.clone())));
                }
                slots.set(s, Some(i));
            },
        }
        i = i + 1;
    }
    assert(es@.take(es@.len() as int) =~= es@);
    Ok(slots)
}

proof fn lemma_gather_err(es: Seq<(String, Value)>, schema: Seq<(&str, usize)>, n: nat, k: int)
    requires
        0 <= k <= es.len(),
        gather(es.take(k), schema, n) is Err,
    ensures
        gather(es, schema, n) == gather(es.take(k), schema, n),
    decreases es.len(),
{
    if k == es.len() {
        assert(es.take(k) =~= es);
    } else {
        assert(es.drop_last().take(k) =~= es.take(k));
        lemma_gather_err(es.drop_last(), schema, n, k);
    }
}

/// A field that must be present.
pub open spec fn spec_required<T: Decode>(
    es: Seq<(String, Value)>,
    slot: Option<usize>,
    name: Seq<char>,
) -> Result<T::Model, DecodeErrorView> {
    match slot {
        None => fault(ErrorKindView::MissingField(name)),
        Some(i) => under(name, T::spec_decode(es[i as int].1)),
    }
}

/// A field that may be absent.
pub open spec fn spec_optional<T: Decode>(
    es: Seq<(String, Value)>,
    slot: Option<usize>,
    name: Seq<char>,
) -> Result<Option<T::Model>, DecodeErrorView> {
    match slot {
        None => Ok(None),
        Some(i) => match under(name, T::spec_decode(es[i as int].1)) {
            Ok(m) => Ok(Some(m)),
            Err(e) => Err(e),
        },
    }
}

pub open spec fn slot_ok(es: Seq<(String, Value)>, slot: Option<usize>) -> bool {
    slot matches Some(i) ==> i < es.len()
}

pub fn required<T: Decode>(es: &Vec<(String, Value)>, slot: Option<usize>, name: &str) -> (r:
    Result<T, DecodeError>)
    requires
        slot_ok(es@, slot),
    ensures
        match spec_required::<T>(es@, slot, name@) {
            Ok(m) => r matches Ok(x) && x.model() == m,
            Err(e) => r matches Err(x) && x@ == e,
        },
{
    match slot {
        None => Err(error_at(ErrorKind::MissingField(String::from_str(name)))),
        Some(i) => match T::decode(&es[i].1) {
            Ok(x) => Ok(x),
            Err(e) => Err(nest(name, e)),
        },
    }
}

pub fn optional<T: Decode>(es: &Vec<(String, Value)>, slot: Option<usize>, name: &str) -> (r:
    Result<Option<T>, DecodeError>)
    requires
        slot_ok(es@, slot),
    ensures
        match spec_optional::<T>(es@, slot, name@) {
            Ok(m) => r matches Ok(x) && opt_model(x) == m,
            Err(e) => r matches Err(x) && x@ == e,
        },
{
    match slot {
        None => Ok(None),
        Some(i) => match T::decode(&es[i].1) {
            Ok(x) => Ok(Some(x)),
            Err(e) => Err(nest(name, e)),
        },
    }
}

/// A table with a key that its record does not declare fails, whatever its
/// other keys are.
pub proof fn law_undeclared_key_rejected(
    es: Seq<(String, Value)>,
    schema: Seq<(&str, usize)>,
    n: nat,
    i: int,
)
    requires
        0 <= i < es.len(),
        key_slot(schema, es[i].0@) is None,
    ensures
        gather(es, schema, n) is Err,
    decreases es.len(),
{
    if i < es.len() - 1 {
        assert(es.drop_last()[i] == es[i]);
        law_undeclared_key_rejected(es.drop_last(), schema, n, i);
    }
}

/// Every slot of a gathered table names one of its entries.
pub proof fn lemma_gather_slots(es: Seq<(String, Value)>, schema: Seq<(&str, usize)>, n: nat)
    requires
        schema_ok(schema, n),
        gather(es, schema, n) is Ok,
    ensures
        gather(es, schema, n)->Ok_0.len() == n,
        forall|j: int|
            0 <= j < n ==> slot_ok(es, #[trigger] gather(es, schema, n)->Ok_0[j]),
    decreases es.len(),
{
    if es.len() > 0 {
        lemma_gather_slots(es.drop_last(), schema, n);
        lemma_key_slot_bound(schema, n, es.last().0@);
        let slots = gather(es.drop_last(), schema, n)->Ok_0;
        assert forall|j: int| 0 <= j < n implies slot_ok(
            es,
            #[trigger] gather(es, schema, n)->Ok_0[j],
        ) by {
            assert(slot_ok(es.drop_last(), slots[j]));
        }
    }
}

} // verus!
