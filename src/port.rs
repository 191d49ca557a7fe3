//! Port specifications and their compact grammar `host[:container][/family]`.

use vstd::prelude::*;

verus! {

/// Transport family used when a port specification names none.
pub const DEFAULT_PROTOCOL: &'static str = "tcp";

/// The characters of [`DEFAULT_PROTOCOL`].
pub open spec fn tcp() -> Seq<char> {
    seq!['t', 'c', 'p']
}

/// Why a token is not an unsigned 16-bit number.
#[derive(Clone, Copy, Debug, PartialEq, Eq, Structural)]
pub enum IntErrorKind {
    /// The token is empty.
    Empty,
    /// The token holds a character that is not a decimal digit.
    InvalidDigit,
    /// The number is larger than 65535.
    PosOverflow,
}

/// A port mapping: a host port, the container port it maps to (absent: the
/// consumer uses the host port) and the transport family.
#[derive(Clone, Debug, Default, PartialEq, Eq, Hash)]
pub struct ExposePort {
    pub host_port: u16,
    pub container_port: Option<u16>,
    pub family: String,
}

/// What an [`ExposePort`] holds.
pub struct PortSpec {
    pub host_port: u16,
    pub container_port: Option<u16>,
    pub family: Seq<char>,
}

impl View for ExposePort {
    type V = PortSpec;

    open spec fn view(&self) -> PortSpec {
        PortSpec {
            host_port: self.host_port,
            container_port: self.container_port,
            family: self.family@,
        }
    }
}

/// A port string that does not follow the grammar.
#[derive(Clone, Debug, PartialEq, Eq)]
pub enum PortError {
    /// Wrong number of `/` or `:` separated parts, or an empty family.
    InvalidFormat { input: String },
    /// A port token that is not an unsigned 16-bit number.
    InvalidPort { input: String, token: String, kind: IntErrorKind },
}

/// What a [`PortError`] holds.
pub enum PortErrorView {
    InvalidFormat { input: Seq<char> },
    InvalidPort { input: Seq<char>, token: Seq<char>, kind: IntErrorKind },
}

impl View for PortError {
    type V = PortErrorView;

    open spec fn view(&self) -> PortErrorView {
        match self {
            PortError::InvalidFormat { input } => PortErrorView::InvalidFormat { input: input@ },
            PortError::InvalidPort { input, token, kind } => PortErrorView::InvalidPort {
                input: input@,
                token: token@,
                kind: *kind,
            },
        }
    }
}

/// A decimal digit.
pub open spec fn is_digit(c: char) -> bool {
    '0' <= c && c <= '9'
}

pub open spec fn digit_value(c: char) -> nat {
    (c as int - '0' as int) as nat
}

pub open spec fn digit_char(d: nat) -> char {
    (d + '0' as nat) as char
}

/// Reads decimal digits from left to right; the first character that is not
/// a digit, or the first digit that takes the value past 65535, decides.
pub open spec fn scan_digits(d: Seq<char>) -> Result<nat, IntErrorKind>
    decreases d.len(),
{
    if d.len() == 0 {
        Ok(0)
    } else {
        match scan_digits(d.drop_last()) {
            Err(e) => Err(e),
            Ok(v) => {
                let c = d.last();
                if !is_digit(c) {
                    Err(IntErrorKind::InvalidDigit)
                } else if 10 * v + digit_value(c) > 65535 {
                    Err(IntErrorKind::PosOverflow)
                } else {
                    Ok(10 * v + digit_value(c))
                }
            },
        }
    }
}

/// An unsigned 16-bit number in decimal, with an optional leading `+`.
pub open spec fn spec_parse_u16(s: Seq<char>) -> Result<u16, IntErrorKind> {
    if s.len() == 0 {
        Err(IntErrorKind::Empty)
    } else if s.len() == 1 && (s[0] == '+' || s[0] == '-') {
        Err(IntErrorKind::InvalidDigit)
    } else {
        let d = if s[0] == '+' {
            s.drop_first()
        } else {
            s
        };
        match scan_digits(d) {
            Ok(v) => Ok(v as u16),
            Err(e) => Err(e),
        }
    }
}

/// Index of the last `x` in `s`.
pub open spec fn rfind(s: Seq<char>, x: char) -> Option<int>
    decreases s.len(),
{
    if s.len() == 0 {
        None
    } else if s.last() == x {
        Some(s.len() - 1)
    } else {
        rfind(s.drop_last(), x)
    }
}

/// `x` does not occur in `s`.
pub open spec fn lacks(s: Seq<char>, x: char) -> bool {
    forall|i: int| 0 <= i < s.len() ==> s[i] != x
}

/// The compact port grammar. The family follows the last `/` and must not be
/// empty; without a `/` it is `tcp`. What precedes it is one port token (the
/// host port) or two separated by `:` (host and container port).
pub open spec fn spec_parse_port(s: Seq<char>) -> Result<PortSpec, PortErrorView> {
    let body = match rfind(s, '/') {
        Some(i) => s.take(i),
        None => s,
    };
    let family = match rfind(s, '/') {
        Some(i) => s.skip(i + 1),
        None => tcp(),
    };
    if family.len() == 0 {
        Err(PortErrorView::InvalidFormat { input: s })
    } else {
        match rfind(body, ':') {
            None => match spec_parse_u16(body) {
                Ok(h) => Ok(PortSpec { host_port: h, container_port: None, family }),
                Err(k) => Err(PortErrorView::InvalidPort { input: s, token: body, kind: k }),
            },
            Some(p) => {
                let ht = body.take(p);
                let ct = body.skip(p + 1);
                if rfind(ht, ':') is Some {
                    Err(PortErrorView::InvalidFormat { input: s })
                } else {
                    match spec_parse_u16(ht) {
                        Err(k) => Err(PortErrorView::InvalidPort { input: s, token: ht, kind: k }),
                        Ok(h) => match spec_parse_u16(ct) {
                            Err(k) => Err(
                                PortErrorView::InvalidPort { input: s, token: ct, kind: k },
                            ),
                            Ok(c) => Ok(
                                PortSpec { host_port: h, container_port: Some(c), family },
                            ),
                        },
                    }
                }
            },
        }
    }
}

/// Decimal text of a natural number, without leading zeros.
pub open spec fn decimal(n: nat) -> Seq<char>
    decreases n,
{
    if n < 10 {
        seq![digit_char(n)]
    } else {
        decimal(n / 10).push(digit_char(n % 10))
    }
}

/// Decimal text of an integer, with a leading `-` when it is negative.
pub open spec fn int_text(v: int) -> Seq<char> {
    if v < 0 {
        seq!['-'] + decimal((-v) as nat)
    } else {
        decimal(v as nat)
    }
}

proof fn lemma_scan_err_extends(d: Seq<char>, k: int)
    requires
        0 <= k <= d.len(),
        scan_digits(d.take(k)) is Err,
    ensures
        scan_digits(d) == scan_digits(d.take(k)),
    decreases d.len(),
{
    if k == d.len() {
        assert(d.take(k) =~= d);
    } else {
        assert(d.drop_last().take(k) =~= d.take(k));
        lemma_scan_err_extends(d.drop_last(), k);
    }
}

proof fn lemma_decimal_digits(n: nat)
    ensures
        decimal(n).len() > 0,
        forall|i: int| 0 <= i < decimal(n).len() ==> is_digit(#[trigger] decimal(n)[i]),
        n <= 65535 ==> scan_digits(decimal(n)) == Ok::<nat, IntErrorKind>(n),
    decreases n,
{
    if n < 10 {
        assert(decimal(n).drop_last() =~= Seq::<char>::empty());
        assert(digit_value(digit_char(n)) == n);
        assert(decimal(n).last() == digit_char(n));
        assert(is_digit(digit_char(n)));
        assert(scan_digits(Seq::<char>::empty()) == Ok::<nat, IntErrorKind>(0));
        assert(scan_digits(decimal(n)) == Ok::<nat, IntErrorKind>(n));
    } else {
        lemma_decimal_digits(n / 10);
        assert(decimal(n).drop_last() =~= decimal(n / 10));
        assert(digit_value(digit_char(n % 10)) == n % 10);
        assert(10 * (n / 10) + n % 10 == n) by (nonlinear_arith);
        assert(decimal(n).last() == digit_char(n % 10));
        assert(is_digit(digit_char(n % 10)));
        if n <= 65535 {
            assert(scan_digits(decimal(n / 10)) == Ok::<nat, IntErrorKind>(n / 10));
            assert(scan_digits(decimal(n)) == Ok::<nat, IntErrorKind>(n));
        }
    }
}

proof fn lemma_parse_decimal(n: nat)
    requires
        n <= 65535,
    ensures
        spec_parse_u16(decimal(n)) == Ok::<u16, IntErrorKind>(n as u16),
        lacks(decimal(n), '/'),
        lacks(decimal(n), ':'),
{
    lemma_decimal_digits(n);
    let s = decimal(n);
    assert(is_digit(s[0]));
    assert forall|i: int| 0 <= i < s.len() implies s[i] != '/' && s[i] != ':' by {
        assert(is_digit(s[i]));
    }
}

proof fn lemma_rfind_absent(s: Seq<char>, x: char)
    requires
        lacks(s, x),
    ensures
        rfind(s, x) is None,
    decreases s.len(),
{
    if s.len() > 0 {
        lemma_rfind_absent(s.drop_last(), x);
    }
}

proof fn lemma_rfind_split(a: Seq<char>, x: char, b: Seq<char>)
    requires
        lacks(b, x),
    ensures
        rfind(a + seq![x] + b, x) == Some(a.len() as int),
    decreases b.len(),
{
    if b.len() == 0 {
        assert((a + seq![x] + b).drop_last() =~= a);
        assert(a + seq![x] + b =~= a.push(x));
    } else {
        assert((a + seq![x] + b).drop_last() =~= a + seq![x] + b.drop_last());
        lemma_rfind_split(a, x, b.drop_last());
    }
}

/// A host port alone gives that host port, no container port and `tcp`.
pub proof fn law_host_port_only(h: u16)
    requires
        1 <= h,
    ensures
        spec_parse_port(decimal(h as nat)) == Ok::<PortSpec, PortErrorView>(
            PortSpec { host_port: h, container_port: None, family: tcp() },
        ),
{
    lemma_parse_decimal(h as nat);
    lemma_rfind_absent(decimal(h as nat), '/');
    lemma_rfind_absent(decimal(h as nat), ':');
}

/// `host/family` gives that host port, no container port and that family.
pub proof fn law_host_port_family(h: u16, f: Seq<char>)
    requires
        1 <= h,
        f.len() > 0,
        lacks(f, '/'),
    ensures
        spec_parse_port(decimal(h as nat) + seq!['/'] + f) == Ok::<PortSpec, PortErrorView>(
            PortSpec { host_port: h, container_port: None, family: f },
        ),
{
    let d = decimal(h as nat);
    let s = d + seq!['/'] + f;
    lemma_parse_decimal(h as nat);
    lemma_rfind_split(d, '/', f);
    assert(s.take(d.len() as int) =~= d);
    assert(s.skip(d.len() as int + 1) =~= f);
    lemma_rfind_absent(d, ':');
}

/// `host:container` gives both ports and `tcp`.
pub proof fn law_host_container(h: u16, c: u16)
    requires
        1 <= h,
        1 <= c,
    ensures
        spec_parse_port(decimal(h as nat) + seq![':'] + decimal(c as nat)) == Ok::<
            PortSpec,
            PortErrorView,
        >(PortSpec { host_port: h, container_port: Some(c), family: tcp() }),
{
    let dh = decimal(h as nat);
    let dc = decimal(c as nat);
    let s = dh + seq![':'] + dc;
    lemma_parse_decimal(h as nat);
    lemma_parse_decimal(c as nat);
    assert(lacks(s, '/')) by {
        assert forall|i: int| 0 <= i < s.len() implies s[i] != '/' by {
            if i < dh.len() {
                assert(s[i] == dh[i]);
            } else if i > dh.len() {
                assert(s[i] == dc[i - dh.len() - 1]);
            }
        }
    }
    lemma_rfind_absent(s, '/');
    lemma_rfind_split(dh, ':', dc);
    assert(s.take(dh.len() as int) =~= dh);
    assert(s.skip(dh.len() as int + 1) =~= dc);
    lemma_rfind_absent(dh, ':');
}

/// `host:container/family` gives both ports and that family.
pub proof fn law_host_container_family(h: u16, c: u16, f: Seq<char>)
    requires
        1 <= h,
        1 <= c,
        f.len() > 0,
        lacks(f, '/'),
    ensures
        spec_parse_port(decimal(h as nat) + seq![':'] + decimal(c as nat) + seq!['/'] + f)
            == Ok::<PortSpec, PortErrorView>(
            PortSpec { host_port: h, container_port: Some(c), family: f },
        ),
{
    let dh = decimal(h as nat);
    let dc = decimal(c as nat);
    let body = dh + seq![':'] + dc;
    let s = body + seq!['/'] + f;
    lemma_parse_decimal(h as nat);
    lemma_parse_decimal(c as nat);
    lemma_rfind_split(body, '/', f);
    assert(s.take(body.len() as int) =~= body);
    assert(s.skip(body.len() as int + 1) =~= f);
    lemma_rfind_split(dh, ':', dc);
    assert(body.take(dh.len() as int) =~= dh);
    assert(body.skip(dh.len() as int + 1) =~= dc);
    lemma_rfind_absent(dh, ':');
}

/// The characters of `s`, one per element.
pub fn chars_of(s: &str) -> (r: Vec<char>)
    ensures
        r@ == s@,
{
    let n = s.unicode_len();
    let mut v: Vec<char> = Vec::new();
    let mut i: usize = 0;
    while i < n
        invariant
            n == s@.len(),
            i <= n,
            v@ == s@.take(i as int),
        decreases n - i,
    {
        v.push(s.get_char(i));
        i = i + 1;
        assert(v@ =~= s@.take(i as int));
    }
    assert(s@.take(n as int) =~= s@);
    v
}

/// Position of the last `x` among `c[lo..hi]`.
pub fn rfind_in(c: &Vec<char>, lo: usize, hi: usize, x: char) -> (r: Option<usize>)
    requires
        lo <= hi <= c@.len(),
    ensures
        match r {
            None => rfind(c@.subrange(lo as int, hi as int), x) is None,
            Some(j) => lo <= j < hi && rfind(c@.subrange(lo as int, hi as int), x) == Some(
                j - lo,
            ),
        },
{
    let mut j: usize = hi;
    while j > lo
        invariant
            lo <= j <= hi <= c@.len(),
            rfind(c@.subrange(lo as int, hi as int), x) == rfind(
                c@.subrange(lo as int, j as int),
                x,
            ),
        decreases j,
    {
        assert(c@.subrange(lo as int, j as int).drop_last() =~= c@.subrange(
            lo as int,
            j - 1,
        ));
        if c[j - 1] == x {
            return Some(j - 1);
        }
        j = j - 1;
    }
    None
}

/// Reads the digits of `c[lo..hi]`, as [`scan_digits`] does.
fn scan_digits_in(c: &Vec<char>, lo: usize, hi: usize) -> (r: Result<u16, IntErrorKind>)
    requires
        lo <= hi <= c@.len(),
    ensures
        match scan_digits(c@.subrange(lo as int, hi as int)) {
            Ok(v) => r == Ok::<u16, IntErrorKind>(v as u16),
            Err(e) => r == Err::<u16, IntErrorKind>(e),
        },
{
    let ghost d = c@.subrange(lo as int, hi as int);
    let mut i: usize = lo;
    let mut acc: u32 = 0;
    assert(d.take(0) =~= Seq::<char>::empty());
    while i < hi
        invariant
            lo <= i <= hi <= c@.len(),
            d == c@.subrange(lo as int, hi as int),
            scan_digits(d.take(i - lo)) == Ok::<nat, IntErrorKind>(acc as nat),
            acc <= 65535,
        decreases hi - i,
    {
        let ch = c[i];
        let ghost pre = d.take(i - lo);
        let ghost cur = d.take(i + 1 - lo);
        assert(cur.drop_last() =~= pre);
        assert(cur.last() == ch);
        if !('0' <= ch && ch <= '9') {
            assert(scan_digits(cur) == Err::<nat, IntErrorKind>(IntErrorKind::InvalidDigit));
            proof {
                lemma_scan_err_extends(d, i + 1 - lo);
            }
            return Err(IntErrorKind::InvalidDigit);
        }
        let dv = (ch as u32) - ('0' as u32);
        assert(dv as nat == digit_value(ch));
        let nv = acc * 10 + dv;
        if nv > 65535 {
            assert(scan_digits(cur) == Err::<nat, IntErrorKind>(IntErrorKind::PosOverflow));
            proof {
                lemma_scan_err_extends(d, i + 1 - lo);
            }
            return Err(IntErrorKind::PosOverflow);
        }
        assert(scan_digits(cur) == Ok::<nat, IntErrorKind>(nv as nat));
        acc = nv;
        i = i + 1;
    }
    assert(d.take(hi - lo) =~= d);
    Ok(acc as u16)
}

/// Reads `c[lo..hi]` as an unsigned 16-bit decimal number.
pub fn parse_u16_in(c: &Vec<char>, lo: usize, hi: usize) -> (r: Result<u16, IntErrorKind>)
    requires
        lo <= hi <= c@.len(),
    ensures
        r == spec_parse_u16(c@.subrange(lo as int, hi as int)),
{
    let ghost s = c@.subrange(lo as int, hi as int);
    if lo == hi {
        return Err(IntErrorKind::Empty);
    }
    if hi - lo == 1 && (c[lo] == '+' || c[lo] == '-') {
        return Err(IntErrorKind::InvalidDigit);
    }
    let start: usize = if c[lo] == '+' {
        lo + 1
    } else {
        lo
    };
    assert(c@.subrange(start as int, hi as int) =~= (if s[0] == '+' {
        s.drop_first()
    } else {
        s
    }));
    scan_digits_in(c, start, hi)
}

/// Accumulates the fields of an [`ExposePort`]; `build` fills the defaults.
#[derive(Clone, Debug, Default)]
pub struct ExposePortBuilder {
    pub host_port: Option<u16>,
    pub container_port: Option<Option<u16>>,
    pub family: Option<String>,
}

/// Why an [`ExposePortBuilder`] could not finish.
#[derive(Clone, Copy, Debug, PartialEq, Eq, Structural)]
pub enum BuildError {
    /// No host port was set; it has no default.
    MissingHostPort,
}

impl ExposePortBuilder {
    /// A builder with no field set.
    pub fn new() -> (r: ExposePortBuilder)
        ensures
            r.host_port is None,
            r.container_port is None,
            r.family is None,
    {
        ExposePortBuilder { host_port: None, container_port: None, family: None }
    }

    pub fn set_host_port(&mut self, value: u16)
        ensures
            final(self).host_port == Some(value),
            final(self).container_port == old(self).container_port,
            final(self).family == old(self).family,
    {
        self.host_port = Some(value);
    }

    pub fn set_container_port(&mut self, value: Option<u16>)
        ensures
            final(self).host_port == old(self).host_port,
            final(self).container_port == Some(value),
            final(self).family == old(self).family,
    {
        self.container_port = Some(value);
    }

    pub fn set_family(&mut self, value: String)
        ensures
            final(self).host_port == old(self).host_port,
            final(self).container_port == old(self).container_port,
            final(self).family == Some(value),
    {
        self.family = Some(value);
    }

    /// The container port when none was set: absent.
    pub fn default_container_port(&self) -> (r: Result<Option<u16>, String>)
        ensures
            r matches Ok(p) && p is None,
    {
        Ok(None)
    }

    /// The family when none was set: `tcp`.
    pub fn default_family(&self) -> (r: Result<String, String>)
        ensures
            r matches Ok(f) && f@ == tcp(),
    {
        Ok(default_expose_port_family())
    }

    /// Finishes the port: fails without a host port, and fills an unset
    /// container port with absent and an unset family with `tcp`.
    pub fn build(&self) -> (r: Result<ExposePort, BuildError>)
        ensures
            self.host_port is None ==> r == Err::<ExposePort, BuildError>(
                BuildError::MissingHostPort,
            ),
            self.host_port matches Some(h) ==> r matches Ok(p) && p.host_port == h
                && p.container_port == (match self.container_port {
                Some(c) => c,
                None => None,
            }) && p.family@ == (match self.family {
                Some(f) => f@,
                None => tcp(),
            }),
    {
        let host_port = match self.host_port {
            Some(h) => h,
            None => {
                return Err(BuildError::MissingHostPort);
            },
        };
        let container_port = match self.container_port {
            Some(c) => c,
            None => match self.default_container_port() {
                Ok(c) => c,
                Err(_) => None,
            },
        };
        let family = match &self.family {
            Some(f) => f.clone(),
            None => default_expose_port_family(),
        };
        Ok(ExposePort { host_port, container_port, family })
    }

    /// Sets the ports from the tokens of `c[0..end]`, which is the part of
    /// `input` before its family; errors name `input`.
    fn set_ports(&mut self, input: &str, c: &Vec<char>, end: usize) -> (r: Result<(), PortError>)
        requires
            c@ == input@,
            end <= c@.len(),
        ensures
            ({
                let body = c@.take(end as int);
                match rfind(body, ':') {
                    None => match spec_parse_u16(body) {
                        Ok(h) => r is Ok && final(self).host_port == Some(h)
                            && final(self).container_port == old(self).container_port,
                        Err(k) => r matches Err(e) && e@ == (PortErrorView::InvalidPort {
                            input: input@,
                            token: body,
                            kind: k,
                        }),
                    },
                    Some(p) => {
                        let ht = body.take(p);
                        let ct = body.skip(p + 1);
                        if rfind(ht, ':') is Some {
                            r matches Err(e) && e@ == (PortErrorView::InvalidFormat {
                                input: input@,
                            })
                        } else {
                            match (spec_parse_u16(ht), spec_parse_u16(ct)) {
                                (Err(k), _) => r matches Err(e) && e@ == (
                                PortErrorView::InvalidPort { input: input@, token: ht, kind: k }),
                                (Ok(_), Err(k)) => r matches Err(e) && e@ == (
                                PortErrorView::InvalidPort { input: input@, token: ct, kind: k }),
                                (Ok(h), Ok(cp)) => r is Ok && final(self).host_port == Some(h)
                                    && final(self).container_port == Some(Some(cp)),
                            }
                        }
                    },
                }
            }),
            final(self).family == old(self).family,
    {
        assert(c@.subrange(0, end as int) =~= c@.take(end as int));
        match rfind_in(c, 0, end, ':') {
            None => {
                match parse_u16_in(c, 0, end) {
                    Ok(h) => {
                        self.set_host_port(h);
                        Ok(())
                    },
                    Err(k) => Err(
                        PortError::InvalidPort {
                            input: String::from_str(input),
                            token: String::from_str(input.substring_char(0, end)),
                            kind: k,
                        },
                    ),
                }
            },
            Some(p) => {
                let ghost body = c@.take(end as int);
                assert(c@.subrange(0, p as int) =~= body.take(p as int));
                assert(c@.subrange(p + 1, end as int) =~= body.skip(p + 1));
                if rfind_in(c, 0, p, ':').is_some() {
                    return Err(PortError::InvalidFormat { input: String::from_str(input) });
                }
                let h = match parse_u16_in(c, 0, p) {
                    Ok(h) => h,
                    Err(k) => {
                        return Err(
                            PortError::InvalidPort {
                                input: String::from_str(input),
                                token: String::from_str(input.substring_char(0, p)),
                                kind: k,
                            },
                        );
                    },
                };
                let cp = match parse_u16_in(c, p + 1, end) {
                    Ok(cp) => cp,
                    Err(k) => {
                        return Err(
                            PortError::InvalidPort {
                                input: String::from_str(input),
                                token: String::from_str(input.substring_char(p + 1, end)),
                                kind: k,
                            },
                        );
                    },
                };
                self.set_host_port(h);
                self.set_container_port(Some(cp));
                Ok(())
            },
        }
    }

    /// Sets the host port, and the container port where `value` holds two
    /// `:`-separated tokens.
    pub fn client_and_host_port(&mut self, value: &str) -> (r: Result<(), PortError>)
        ensures
            final(self).family == old(self).family,
            match rfind(value@, ':') {
                None => match spec_parse_u16(value@) {
                    Ok(h) => r is Ok && final(self).host_port == Some(h)
                        && final(self).container_port == old(self).container_port,
                    Err(k) => r matches Err(e) && e@ == (PortErrorView::InvalidPort {
                        input: value@,
                        token: value@,
                        kind: k,
                    }),
                },
                Some(p) => {
                    let ht = value@.take(p);
                    let ct = value@.skip(p + 1);
                    if rfind(ht, ':') is Some {
                        r matches Err(e) && e@ == (PortErrorView::InvalidFormat { input: value@ })
                    } else {
                        match (spec_parse_u16(ht), spec_parse_u16(ct)) {
                            (Err(k), _) => r matches Err(e) && e@ == (PortErrorView::InvalidPort {
                                input: value@,
                                token: ht,
                                kind: k,
                            }),
                            (Ok(_), Err(k)) => r matches Err(e) && e@ == (
                            PortErrorView::InvalidPort { input: value@, token: ct, kind: k }),
                            (Ok(h), Ok(cp)) => r is Ok && final(self).host_port == Some(h)
                                && final(self).container_port == Some(Some(cp)),
                        }
                    }
                },
            },
    {
        let c = chars_of(value);
        assert(c@.take(c@.len() as int) =~= value@);
        self.set_ports(value, &c, c.len())
    }
}

/// The family a port specification gets when none is given.
pub fn default_expose_port_family() -> (r: String)
    ensures
        r@ == tcp(),
{
    proof {
        reveal_strlit("tcp");
    }
    String::from_str(DEFAULT_PROTOCOL)
}

impl ExposePort {
    /// Reads a port from the compact grammar `host[:container][/family]`.
    pub fn from_str(s: &str) -> (r: Result<ExposePort, PortError>)
        ensures
            match spec_parse_port(s@) {
                Ok(p) => r matches Ok(q) && q@ == p,
                Err(e) => r matches Err(f) && f@ == e,
            },
    {
        let c = chars_of(s);
        let n = c.len();
        assert(c@.subrange(0, n as int) =~= s@);
        let mut b = ExposePortBuilder::new();
        let end = match rfind_in(&c, 0, n, '/') {
            Some(i) => {
                if i + 1 == n {
                    assert(s@.skip(i + 1) =~= Seq::<char>::empty());
                    return Err(PortError::InvalidFormat { input: String::from_str(s) });
                }
                b.set_family(String::from_str(s.substring_char(i + 1, n)));
                assert(s@.subrange(i + 1, n as int) =~= s@.skip(i + 1));
                i
            },
            None => n,
        };
        assert(end == n ==> c@.take(end as int) =~= s@);
        match b.set_ports(s, &c, end) {
            Ok(()) => {},
            Err(e) => {
                return Err(e);
            },
        }
        // The host port is set by now, so `build` succeeds; the second arm is
        // proved unreachable.
        match b.build() {
            Ok(p) => Ok(p),
            Err(_) => Err(PortError::InvalidFormat { input: String::from_str(s) }),
        }
    }
}

fn digit_str(d: u64) -> (r: &'static str)
    requires
        d < 10,
    ensures
        r@ == seq![digit_char(d as nat)],
{
    proof {
        reveal_strlit("0");
        reveal_strlit("1");
        reveal_strlit("2");
        reveal_strlit("3");
        reveal_strlit("4");
        reveal_strlit("5");
        reveal_strlit("6");
        reveal_strlit("7");
        reveal_strlit("8");
        reveal_strlit("9");
    }
    let r = if d == 0 {
        "0"
    } else if d == 1 {
        "1"
    } else if d == 2 {
        "2"
    } else if d == 3 {
        "3"
    } else if d == 4 {
        "4"
    } else if d == 5 {
        "5"
    } else if d == 6 {
        "6"
    } else if d == 7 {
        "7"
    } else if d == 8 {
        "8"
    } else {
        "9"
    };
    assert(r@ =~= seq![digit_char(d as nat)]);
    r
}

fn push_decimal(out: &mut String, m: u64)
    ensures
        final(out)@ == old(out)@ + decimal(m as nat),
    decreases m,
{
    if m >= 10 {
        push_decimal(out, m / 10);
    }
    out.append(digit_str(m % 10));
    assert(m >= 10 ==> decimal(m as nat) == decimal((m / 10) as nat).push(
        digit_char((m % 10) as nat),
    ));
    assert(old(out)@ + decimal(m as nat) =~= final(out)@);
}

/// Base-10 text of an integer.
pub fn integer_text(v: i64) -> (r: String)
    ensures
        r@ == int_text(v as int),
{
    let mut out = String::new();
    if v < 0 {
        proof {
            reveal_strlit("-");
        }
        out.append("-");
        let m: u64 = (0i128 - v as i128) as u64;
        push_decimal(&mut out, m);
    } else {
        push_decimal(&mut out, v as u64);
    }
    assert(out@ =~= int_text(v as int));
    out
}

} // verus!
