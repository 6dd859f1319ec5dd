//! Targets: a textual `host:port` specification resolved to a concrete
//! socket address, with the text as given kept as the display name.
//!
//! The resolver here covers numeric IPv4 specifications, which it parses and
//! verifies outright. A specification whose host is a DNS name needs the
//! platform resolver; the surrounding binary performs that lookup and builds
//! the same `Target` value through [`Target::from_parts`].

use vstd::prelude::*;
use vstd::string::StrSliceExecFns;
use crate::error::WaitError;
use crate::text::{dec_value, parse_decimal, split_on, split_on_char, strict_numeral, views_of};

verus! {

/// A concrete IP address, as plain values.
#[derive(Debug, PartialEq, Eq, Clone, Copy)]
pub enum IpAddress {
    /// Four dotted-quad octets, most significant first.
    V4(u8, u8, u8, u8),
    /// Eight sixteen-bit segments, most significant first.
    V6(u16, u16, u16, u16, u16, u16, u16, u16),
}

/// A resolved network endpoint: an IP address and a port.
#[derive(Debug, PartialEq, Eq, Clone, Copy)]
pub struct SocketAddress {
    pub ip: IpAddress,
    pub port: u16,
}

/// One endpoint this tool waits on.
#[derive(Debug, PartialEq, Eq, Clone)]
pub struct Target {
    /// The specification as the user gave it.
    pub target_name: String,
    /// The already-resolved address polled for this target.
    pub addr: SocketAddress,
}

/// The mathematical value of a `Target`.
pub struct TargetView {
    pub target_name: Seq<char>,
    pub addr: SocketAddress,
}

impl View for Target {
    type V = TargetView;

    open spec fn view(&self) -> TargetView {
        TargetView { target_name: self.target_name@, addr: self.addr }
    }
}

/// The views of a vector of targets.
pub open spec fn targets_view(v: Seq<Target>) -> Seq<TargetView> {
    v.map_values(|t: Target| t@)
}

/// A dotted-quad octet: digits without a superfluous leading zero, worth
/// at most 255.
pub open spec fn valid_octet(s: Seq<char>) -> bool {
    strict_numeral(s) && dec_value(s) <= 255
}

/// A port numeral: digits without a superfluous leading zero, worth at most
/// 65535.
pub open spec fn valid_port(s: Seq<char>) -> bool {
    strict_numeral(s) && dec_value(s) <= 65535
}

/// Reads a dotted-quad IPv4 address, or nothing.
pub open spec fn parse_ipv4(s: Seq<char>) -> Option<IpAddress> {
    let parts = split_on(s, '.');
    if parts.len() == 4 && valid_octet(parts[0]) && valid_octet(parts[1]) && valid_octet(parts[2])
        && valid_octet(parts[3]) {
        Some(
            IpAddress::V4(
                dec_value(parts[0]) as u8,
                dec_value(parts[1]) as u8,
                dec_value(parts[2]) as u8,
                dec_value(parts[3]) as u8,
            ),
        )
    } else {
        None
    }
}

/// Reads a whole `host:port` specification with a numeric IPv4 host, or
/// nothing.
pub open spec fn parse_target_spec(s: Seq<char>) -> Option<SocketAddress> {
    let parts = split_on(s, ':');
    if parts.len() == 2 && valid_port(parts[1]) {
        match parse_ipv4(parts[0]) {
            Some(ip) => Some(SocketAddress { ip, port: dec_value(parts[1]) as u16 }),
            None => None,
        }
    } else {
        None
    }
}

impl Target {
    /// Resolves a textual `host:port` specification with a numeric IPv4
    /// host. Anything else fails with `Resolution`, carrying the
    /// specification as given.
    pub fn try_from(value: &str) -> (r: Result<Target, WaitError>)
        ensures
            match parse_target_spec(value@) {
                Some(a) => r matches Ok(t) && t.target_name@ == value@ && t.addr == a,
                None => r matches Err(WaitError::Resolution(s)) && s@ == value@,
            },
    {
        let parts = split_on_char(value, ':');
        if parts.len() != 2 {
            return Err(WaitError::Resolution(value.to_owned()));
        }
        proof {
            assert(parts@[1]@ == split_on(value@, ':')[1]);
            assert(parts@[0]@ == split_on(value@, ':')[0]);
        }
        let port = match parse_decimal(parts[1].as_str(), 65535, true) {
            Some(p) => p as u16,
            None => {
                return Err(WaitError::Resolution(value.to_owned()));
            },
        };
        let quads = split_on_char(parts[0].as_str(), '.');
        if quads.len() != 4 {
            return Err(WaitError::Resolution(value.to_owned()));
        }
        proof {
            assert(forall|k: int|
                0 <= k < 4 ==> quads@[k]@ == split_on(parts@[0]@, '.')[k]);
        }
        let a = match parse_decimal(quads[0].as_str(), 255, true) {
            Some(v) => v as u8,
            None => {
                return Err(WaitError::Resolution(value.to_owned()));
            },
        };
        let b = match parse_decimal(quads[1].as_str(), 255, true) {
            Some(v) => v as u8,
            None => {
                return Err(WaitError::Resolution(value.to_owned()));
            },
        };
        let c = match parse_decimal(quads[2].as_str(), 255, true) {
            Some(v) => v as u8,
            None => {
                return Err(WaitError::Resolution(value.to_owned()));
            },
        };
        let d = match parse_decimal(quads[3].as_str(), 255, true) {
            Some(v) => v as u8,
            None => {
                return Err(WaitError::Resolution(value.to_owned()));
            },
        };
        Ok(
            Target {
                target_name: value.to_owned(),
                addr: SocketAddress { ip: IpAddress::V4(a, b, c, d), port },
            },
        )
    }

    /// Builds a target from a display name and an address already resolved
    /// elsewhere (for hosts that need the platform resolver).
    pub fn from_parts(target_name: String, addr: SocketAddress) -> (t: Target)
        ensures
            t.target_name == target_name,
            t.addr == addr,
    {
        Target { target_name, addr }
    }
}

/// Resolves a list of specifications in order; the first failure wins and
/// carries the failing specification.
pub open spec fn resolve_specs(specs: Seq<Seq<char>>) -> Result<Seq<TargetView>, Seq<char>>
    decreases specs.len(),
{
    if specs.len() == 0 {
        Ok(Seq::empty())
    } else {
        match resolve_specs(specs.drop_last()) {
            Err(e) => Err(e),
            Ok(done) => match parse_target_spec(specs.last()) {
                Some(a) => Ok(done.push(TargetView { target_name: specs.last(), addr: a })),
                None => Err(specs.last()),
            },
        }
    }
}

/// A resolved list holds exactly one target per specification, in order,
/// each keeping its text as the display name.
pub proof fn lemma_resolve_specs_ok(specs: Seq<Seq<char>>, tv: Seq<TargetView>)
    requires
        resolve_specs(specs) == Ok::<Seq<TargetView>, Seq<char>>(tv),
    ensures
        tv.len() == specs.len(),
        forall|i: int|
            0 <= i < specs.len() ==> #[trigger] tv[i].target_name == specs[i] && parse_target_spec(
                specs[i],
            ) == Some(tv[i].addr),
    decreases specs.len(),
{
    if specs.len() > 0 {
        let done = resolve_specs(specs.drop_last())->Ok_0;
        lemma_resolve_specs_ok(specs.drop_last(), done);
        assert(forall|i: int| 0 <= i < specs.len() - 1 ==> specs.drop_last()[i] == specs[i]);
    }
}

/// Resolution succeeds exactly when every specification parses.
pub proof fn lemma_resolve_specs_complete(specs: Seq<Seq<char>>)
    ensures
        resolve_specs(specs) is Ok <==> (forall|i: int|
            0 <= i < specs.len() ==> #[trigger] parse_target_spec(specs[i]) is Some),
    decreases specs.len(),
{
    if specs.len() > 0 {
        lemma_resolve_specs_complete(specs.drop_last());
        assert(forall|i: int| 0 <= i < specs.len() - 1 ==> specs.drop_last()[i] == specs[i]);
        if resolve_specs(specs) is Ok {
            assert(forall|i: int|
                0 <= i < specs.len() - 1 ==> #[trigger] parse_target_spec(specs[i]) is Some);
            assert(parse_target_spec(specs[specs.len() - 1]) is Some);
        }
    }
}

/// Resolves every specification in the list via `Target::try_from`, in
/// order; the first failure aborts with `Resolution`.
pub fn resolve_all(specs: &Vec<String>) -> (r: Result<Vec<Target>, WaitError>)
    ensures
        match resolve_specs(views_of(specs@)) {
            Ok(tv) => r matches Ok(ts) && targets_view(ts@) == tv,
            Err(bad) => r matches Err(WaitError::Resolution(s)) && s@ == bad,
        },
{
    let mut out: Vec<Target> = Vec::new();
    let mut i: usize = 0;
    proof {
        assert(views_of(specs@).take(0) =~= Seq::<Seq<char>>::empty());
        assert(targets_view(out@) =~= Seq::<TargetView>::empty());
    }
    while i < specs.len()
        invariant
            0 <= i <= specs@.len(),
            resolve_specs(views_of(specs@).take(i as int)) == Ok::<Seq<TargetView>, Seq<char>>(
                targets_view(out@),
            ),
        decreases specs@.len() - i,
    {
        let ghost all = views_of(specs@);
        match Target::try_from(specs[i].as_str()) {
            Ok(t) => {
                proof {
                    assert(all.take(i + 1).drop_last() =~= all.take(i as int));
                    assert(all.take(i + 1).last() == specs@[i as int]@);
                    assert(targets_view(out@.push(t)) =~= targets_view(out@).push(t@));
                }
                out.push(t);
            },
            Err(e) => {
                proof {
                    assert(all.take(i + 1).drop_last() =~= all.take(i as int));
                    assert(all.take(i + 1).last() == specs@[i as int]@);
                    assert(resolve_specs(all.take(i + 1)) == Err::<Seq<TargetView>, Seq<char>>(
                        specs@[i as int]@,
                    ));
                    lemma_resolve_specs_err_extends(all, i + 1);
                }
                return Err(e);
            },
        }
        i = i + 1;
    }
    proof {
        assert(views_of(specs@).take(specs@.len() as int) =~= views_of(specs@));
    }
    Ok(out)
}

/// An error on a prefix of the list is the error of the whole list.
pub proof fn lemma_resolve_specs_err_extends(specs: Seq<Seq<char>>, j: int)
    requires
        0 <= j <= specs.len(),
        resolve_specs(specs.take(j)) is Err,
    ensures
        resolve_specs(specs) == resolve_specs(specs.take(j)),
    decreases specs.len() - j,
{
    if j < specs.len() {
        assert(specs.take(j + 1).drop_last() =~= specs.take(j));
        lemma_resolve_specs_err_extends(specs, j + 1);
    } else {
        assert(specs.take(j) =~= specs);
    }
}

} // verus!
