//! Configuration sources and the rules that derive targets and timeout.
//!
//! A configuration is an environment-like, read-only set of key/value pairs.
//! Targets come from the first rule that yields any: the explicit list in
//! `WAIT_TARGETS` (or, failing that, `TARGETS`), split on commas; otherwise
//! one target per key ending in `_TCP`, whose value holds a specification
//! after a six-character `scheme://`-style prefix. The timeout comes from
//! `WAIT_TIMEOUT` (or, failing that, `TIMEOUT`), falling back to a default
//! when undefined or unparsable.

use vstd::prelude::*;
use vstd::string::StrSliceExecFns;
use crate::error::WaitError;
use crate::target::{
    lemma_resolve_specs_ok,
    resolve_all,
    resolve_specs,
    targets_view,
    Target,
    TargetView,
};
use crate::text::{all_digits, dec_value, parse_decimal, split_on, split_on_char, views_of};

verus! {

/// The timeout, in seconds, used when no variable defines one, or when the
/// defined one does not parse.
pub const DEFAULT_TIMEOUT: u64 = 30;

/// The key/value pairs of a configuration, as character sequences.
pub open spec fn pairs_view(v: Seq<(String, String)>) -> Seq<(Seq<char>, Seq<char>)> {
    v.map_values(|p: (String, String)| (p.0@, p.1@))
}

/// First-match lookup of a key among the pairs.
pub open spec fn lookup(entries: Seq<(Seq<char>, Seq<char>)>, key: Seq<char>) -> Option<Seq<char>>
    decreases entries.len(),
{
    if entries.len() == 0 {
        None
    } else if entries[0].0 == key {
        Some(entries[0].1)
    } else {
        lookup(entries.drop_first(), key)
    }
}

/// The value of the first of two keys that is defined.
pub open spec fn first_defined(
    entries: Seq<(Seq<char>, Seq<char>)>,
    primary: Seq<char>,
    fallback: Seq<char>,
) -> Option<Seq<char>> {
    match lookup(entries, primary) {
        Some(v) => Some(v),
        None => lookup(entries, fallback),
    }
}

/// The explicit target specifications, when one of the two list variables is
/// defined: its value split on commas.
pub open spec fn explicit_specs(entries: Seq<(Seq<char>, Seq<char>)>) -> Option<Seq<Seq<char>>> {
    match first_defined(entries, "WAIT_TARGETS"@, "TARGETS"@) {
        Some(v) => Some(split_on(v, ',')),
        None => None,
    }
}

/// The key names a linked container: it ends in `_TCP`.
pub open spec fn has_tcp_suffix(s: Seq<char>) -> bool {
    &&& s.len() >= 4
    &&& s[s.len() - 4] == '_'
    &&& s[s.len() - 3] == 'T'
    &&& s[s.len() - 2] == 'C'
    &&& s[s.len() - 1] == 'P'
}

/// The target specification inside a linked-container value: its characters
/// after the six-character scheme-and-separator prefix. A value too short to
/// have that prefix yields the empty specification, which never resolves.
pub open spec fn linked_spec_of(v: Seq<char>) -> Seq<char> {
    if v.len() >= 6 {
        v.skip(6)
    } else {
        Seq::empty()
    }
}

/// The linked-container specifications, one per `_TCP` key, in enumeration
/// order.
pub open spec fn linked_specs(entries: Seq<(Seq<char>, Seq<char>)>) -> Seq<Seq<char>>
    decreases entries.len(),
{
    if entries.len() == 0 {
        Seq::empty()
    } else {
        let done = linked_specs(entries.drop_last());
        if has_tcp_suffix(entries.last().0) {
            done.push(linked_spec_of(entries.last().1))
        } else {
            done
        }
    }
}

/// The ordered specification list a run polls: the first precedence rule
/// that yields any; `None` when none does.
pub open spec fn all_specs(entries: Seq<(Seq<char>, Seq<char>)>) -> Option<Seq<Seq<char>>> {
    match explicit_specs(entries) {
        Some(specs) => Some(specs),
        None => if linked_specs(entries).len() == 0 {
            None
        } else {
            Some(linked_specs(entries))
        },
    }
}

/// The digits of a timeout value: the whole value, or what follows a single
/// leading plus sign.
pub open spec fn timeout_digits(v: Seq<char>) -> Seq<char> {
    if v.len() >= 1 && v[0] == '+' {
        v.drop_first()
    } else {
        v
    }
}

/// A timeout value parses when, after an optional leading plus sign, it is
/// one or more decimal digits whose value fits in a `u64`.
pub open spec fn timeout_parses(v: Seq<char>) -> bool {
    let d = timeout_digits(v);
    d.len() >= 1 && all_digits(d) && dec_value(d) <= u64::MAX
}

/// The seconds a parsed timeout value is worth.
pub open spec fn timeout_seconds(v: Seq<char>) -> u64 {
    dec_value(timeout_digits(v)) as u64
}

/// The resolved timeout in seconds: the first defined of the two timeout
/// variables when it parses, the default otherwise.
pub open spec fn timeout_value(entries: Seq<(Seq<char>, Seq<char>)>) -> u64 {
    match first_defined(entries, "WAIT_TIMEOUT"@, "TIMEOUT"@) {
        None => DEFAULT_TIMEOUT,
        Some(v) => if timeout_parses(v) {
            timeout_seconds(v)
        } else {
            DEFAULT_TIMEOUT
        },
    }
}

/// How the timeout was determined, so that a caller can warn about an
/// unparsable value before falling back to the default.
#[derive(Debug, PartialEq, Eq)]
pub enum TimeoutResolution {
    /// A timeout variable was defined and parsed; carries the seconds.
    Parsed(u64),
    /// A timeout variable was defined but does not parse; carries its text.
    Invalid(String),
    /// Neither timeout variable is defined.
    Unset,
}

/// The key ends in `_TCP`.
fn key_has_tcp_suffix(key: &String) -> (b: bool)
    ensures
        b == has_tcp_suffix(key@),
{
    let s = key.as_str();
    let n = s.unicode_len();
    if n < 4 {
        return false;
    }
    s.get_char(n - 4) == '_' && s.get_char(n - 3) == 'T' && s.get_char(n - 2) == 'C' && s.get_char(
        n - 1,
    ) == 'P'
}

/// Clones a list of pairs, keeping order and contents.
fn clone_pairs(v: &Vec<(String, String)>) -> (r: Vec<(String, String)>)
    ensures
        pairs_view(r@) == pairs_view(v@),
{
    let mut r: Vec<(String, String)> = Vec::new();
    let mut i: usize = 0;
    while i < v.len()
        invariant
            0 <= i <= v@.len(),
            r@ =~= v@.take(i as int),
        decreases v@.len() - i,
    {
        r.push((v[i].0.clone(), v[i].1.clone()));
        i = i + 1;
    }
    proof {
        assert(v@.take(v@.len() as int) =~= v@);
    }
    r
}

/// First-match lookup among the pairs; `MissingVariable` when undefined.
fn lookup_pairs(v: &Vec<(String, String)>, key: &str) -> (r: Result<String, WaitError>)
    ensures
        match lookup(pairs_view(v@), key@) {
            Some(val) => r matches Ok(s) && s@ == val,
            None => r matches Err(WaitError::MissingVariable(k)) && k@ == key@,
        },
{
    let key_owned = key.to_owned();
    let ghost entries = pairs_view(v@);
    let mut i: usize = 0;
    proof {
        assert(entries.skip(0) =~= entries);
    }
    while i < v.len()
        invariant
            0 <= i <= v@.len(),
            entries == pairs_view(v@),
            key_owned@ == key@,
            lookup(entries, key@) == lookup(entries.skip(i as int), key@),
        decreases v@.len() - i,
    {
        if v[i].0 == key_owned {
            proof {
                assert(entries.skip(i as int)[0] == entries[i as int]);
            }
            return Ok(v[i].1.clone());
        }
        proof {
            assert(entries.skip(i as int)[0] == entries[i as int]);
            assert(entries.skip(i as int).drop_first() =~= entries.skip(i + 1));
        }
        i = i + 1;
    }
    proof {
        assert(entries.skip(v@.len() as int) =~= Seq::<(Seq<char>, Seq<char>)>::empty());
    }
    Err(WaitError::MissingVariable(key_owned))
}

/// An abstract configuration source: enumerate all pairs, or look one up by
/// key. The discovery and timeout rules are written once, here, against that
/// capability alone.
pub trait Config: Sized {
    /// The key/value pairs this source defines, in enumeration order.
    spec fn entries(&self) -> Seq<(Seq<char>, Seq<char>)>;

    /// All defined pairs, in enumeration order.
    fn vars(&self) -> (r: Vec<(String, String)>)
        ensures
            pairs_view(r@) == self.entries(),
    ;

    /// The value of one key; `MissingVariable` when it is undefined.
    fn var(&self, key: &str) -> (r: Result<String, WaitError>)
        ensures
            match lookup(self.entries(), key@) {
                Some(v) => r matches Ok(s) && s@ == v,
                None => r matches Err(WaitError::MissingVariable(k)) && k@ == key@,
            },
    ;

    /// The value of the first of two keys that is defined.
    fn first_var(&self, primary: &str, fallback: &str) -> (r: Option<String>)
        ensures
            match first_defined(self.entries(), primary@, fallback@) {
                Some(v) => r matches Some(s) && s@ == v,
                None => r is None,
            },
    {
        match self.var(primary) {
            Ok(v) => Some(v),
            Err(_) => match self.var(fallback) {
                Ok(v) => Some(v),
                Err(_) => None,
            },
        }
    }

    /// The explicit target list: the first defined of `WAIT_TARGETS` and
    /// `TARGETS`, split on commas and resolved in order. An empty list means
    /// neither variable is defined; a resolution failure aborts.
    fn get_targets(&self) -> (r: Result<Vec<Target>, WaitError>)
        ensures
            match explicit_specs(self.entries()) {
                None => r matches Ok(ts) && ts@.len() == 0,
                Some(specs) => match resolve_specs(specs) {
                    Ok(tv) => r matches Ok(ts) && targets_view(ts@) == tv,
                    Err(bad) => r matches Err(WaitError::Resolution(s)) && s@ == bad,
                },
            },
    {
        match self.first_var("WAIT_TARGETS", "TARGETS") {
            Some(v) => {
                let pieces = split_on_char(v.as_str(), ',');
                resolve_all(&pieces)
            },
            None => Ok(Vec::new()),
        }
    }

    /// The linked-container specifications: for every key ending in `_TCP`,
    /// the characters of its value after the six-character prefix, in
    /// enumeration order.
    fn linked_target_specs(&self) -> (r: Vec<String>)
        ensures
            views_of(r@) == linked_specs(self.entries()),
    {
        let all = self.vars();
        let ghost entries = self.entries();
        let mut specs: Vec<String> = Vec::new();
        let mut i: usize = 0;
        proof {
            assert(entries.take(0) =~= Seq::<(Seq<char>, Seq<char>)>::empty());
            assert(views_of(specs@) =~= Seq::<Seq<char>>::empty());
        }
        while i < all.len()
            invariant
                0 <= i <= all@.len(),
                entries == pairs_view(all@),
                views_of(specs@) =~~= linked_specs(entries.take(i as int)),
            decreases all@.len() - i,
        {
            proof {
                assert(entries.take(i + 1).drop_last() =~= entries.take(i as int));
                assert(entries.take(i + 1).last() == entries[i as int]);
            }
            if key_has_tcp_suffix(&all[i].0) {
                let value = all[i].1.as_str();
                let n = value.unicode_len();
                let spec = if n >= 6 {
                    value.substring_char(6, n).to_owned()
                } else {
                    String::new()
                };
                proof {
                    assert(spec@ == linked_spec_of(entries[i as int].1));
                    assert(views_of(specs@.push(spec)) =~= views_of(specs@).push(spec@));
                }
                specs.push(spec);
            }
            i = i + 1;
        }
        proof {
            assert(entries.take(all@.len() as int) =~= entries);
        }
        specs
    }

    /// The linked-container targets: one per `_TCP` key, resolved in
    /// enumeration order; a resolution failure aborts.
    fn get_linked_container_targets(&self) -> (r: Result<Vec<Target>, WaitError>)
        ensures
            match resolve_specs(linked_specs(self.entries())) {
                Ok(tv) => r matches Ok(ts) && targets_view(ts@) == tv,
                Err(bad) => r matches Err(WaitError::Resolution(s)) && s@ == bad,
            },
    {
        let specs = self.linked_target_specs();
        resolve_all(&specs)
    }

    /// The ordered target specifications of a run: the explicit list when
    /// one of its variables is defined, otherwise the linked-container
    /// specifications, otherwise `NoTargets`.
    fn all_target_specs(&self) -> (r: Result<Vec<String>, WaitError>)
        ensures
            match all_specs(self.entries()) {
                Some(specs) => r matches Ok(v) && views_of(v@) == specs,
                None => r matches Err(WaitError::NoTargets),
            },
    {
        match self.first_var("WAIT_TARGETS", "TARGETS") {
            Some(v) => Ok(split_on_char(v.as_str(), ',')),
            None => {
                let linked = self.linked_target_specs();
                if linked.len() == 0 {
                    Err(WaitError::NoTargets)
                } else {
                    Ok(linked)
                }
            },
        }
    }

    /// The targets of a run, by the precedence rules: the explicit list if
    /// one of its variables is defined, otherwise the linked-container
    /// targets, otherwise `NoTargets`. A resolution failure in the chosen
    /// rule aborts with it.
    fn get_all_targets(&self) -> (r: Result<Vec<Target>, WaitError>)
        ensures
            match all_specs(self.entries()) {
                None => r matches Err(WaitError::NoTargets),
                Some(specs) => match resolve_specs(specs) {
                    Ok(tv) => r matches Ok(ts) && targets_view(ts@) == tv,
                    Err(bad) => r matches Err(WaitError::Resolution(s)) && s@ == bad,
                },
            },
    {
        let specs = match self.all_target_specs() {
            Ok(s) => s,
            Err(e) => {
                return Err(e);
            },
        };
        resolve_all(&specs)
    }

    /// How the timeout variables resolve: the first defined of
    /// `WAIT_TIMEOUT` and `TIMEOUT`, parsed as decimal seconds.
    fn resolve_timeout(&self) -> (r: TimeoutResolution)
        ensures
            match first_defined(self.entries(), "WAIT_TIMEOUT"@, "TIMEOUT"@) {
                None => r is Unset,
                Some(v) => if timeout_parses(v) {
                    r matches TimeoutResolution::Parsed(n) && n == timeout_seconds(v)
                } else {
                    r matches TimeoutResolution::Invalid(s) && s@ == v
                },
            },
    {
        match self.first_var("WAIT_TIMEOUT", "TIMEOUT") {
            None => TimeoutResolution::Unset,
            Some(v) => {
                let s = v.as_str();
                let n = s.unicode_len();
                let digits = if n >= 1 && s.get_char(0) == '+' {
                    s.substring_char(1, n)
                } else {
                    s
                };
                proof {
                    if n >= 1 && s@[0] == '+' {
                        assert(s@.subrange(1, n as int) =~= v@.drop_first());
                    }
                    assert(digits@ == timeout_digits(v@));
                }
                match parse_decimal(digits, u64::MAX, false) {
                    Some(secs) => TimeoutResolution::Parsed(secs),
                    None => TimeoutResolution::Invalid(v),
                }
            },
        }
    }

    /// The per-target timeout in seconds: the parsed value when there is
    /// one, the default otherwise.
    fn get_timeout(&self) -> (t: u64)
        ensures
            t == timeout_value(self.entries()),
    {
        match self.resolve_timeout() {
            TimeoutResolution::Parsed(n) => n,
            TimeoutResolution::Invalid(_) => DEFAULT_TIMEOUT,
            TimeoutResolution::Unset => DEFAULT_TIMEOUT,
        }
    }
}

/// Read-only view over the process environment. The surrounding binary
/// captures the environment's pairs once and hands them in; the library
/// itself never touches the process environment.
pub struct EnvConfig {
    pub pairs: Vec<(String, String)>,
}

impl EnvConfig {
    /// A configuration over the given environment pairs, in enumeration
    /// order.
    pub fn new(pairs: Vec<(String, String)>) -> (c: EnvConfig)
        ensures
            c.entries() == pairs_view(pairs@),
    {
        EnvConfig { pairs }
    }
}

impl Config for EnvConfig {
    open spec fn entries(&self) -> Seq<(Seq<char>, Seq<char>)> {
        pairs_view(self.pairs@)
    }

    fn vars(&self) -> (r: Vec<(String, String)>) {
        clone_pairs(&self.pairs)
    }

    fn var(&self, key: &str) -> (r: Result<String, WaitError>) {
        lookup_pairs(&self.pairs, key)
    }
}

/// A synthetic configuration over explicit pairs, for exercising the
/// discovery and timeout rules without a real environment.
pub struct MockEnvConfig {
    pub pairs: Vec<(String, String)>,
}

impl MockEnvConfig {
    /// A configuration over the given pairs, in the given order.
    pub fn new(pairs: Vec<(String, String)>) -> (c: MockEnvConfig)
        ensures
            c.entries() == pairs_view(pairs@),
    {
        MockEnvConfig { pairs }
    }
}

impl Config for MockEnvConfig {
    open spec fn entries(&self) -> Seq<(Seq<char>, Seq<char>)> {
        pairs_view(self.pairs@)
    }

    fn vars(&self) -> (r: Vec<(String, String)>) {
        clone_pairs(&self.pairs)
    }

    fn var(&self, key: &str) -> (r: Result<String, WaitError>) {
        lookup_pairs(&self.pairs, key)
    }
}

/// The verified part of a run's startup: the targets, in order, and the
/// timeout, by the precedence rules. A discovery failure aborts the run
/// before the timeout is looked at.
pub fn run_plan<C: Config>(config: &C) -> (r: Result<(Vec<Target>, u64), WaitError>)
    ensures
        match all_specs(config.entries()) {
            None => r matches Err(WaitError::NoTargets),
            Some(specs) => match resolve_specs(specs) {
                Ok(tv) => r matches Ok(p) && targets_view(p.0@) == tv && p.1 == timeout_value(
                    config.entries(),
                ),
                Err(bad) => r matches Err(WaitError::Resolution(s)) && s@ == bad,
            },
        },
{
    let targets = match config.get_all_targets() {
        Ok(t) => t,
        Err(e) => {
            return Err(e);
        },
    };
    let timeout = config.get_timeout();
    Ok((targets, timeout))
}

/// With `WAIT_TARGETS` defined, the explicit specifications come from its
/// value alone: `TARGETS` plays no part.
pub proof fn lemma_wait_targets_precedence(entries: Seq<(Seq<char>, Seq<char>)>, v: Seq<char>)
    requires
        lookup(entries, "WAIT_TARGETS"@) == Some(v),
    ensures
        explicit_specs(entries) == Some(split_on(v, ',')),
{
}

/// With `WAIT_TARGETS` undefined, the explicit specifications come from
/// `TARGETS`.
pub proof fn lemma_targets_fallback(entries: Seq<(Seq<char>, Seq<char>)>, v: Seq<char>)
    requires
        lookup(entries, "WAIT_TARGETS"@) is None,
        lookup(entries, "TARGETS"@) == Some(v),
    ensures
        explicit_specs(entries) == Some(split_on(v, ',')),
{
}

/// The linked-container specifications are exactly the `_TCP` entries, in
/// order, each contributing the characters of its value from index six on.
pub proof fn lemma_linked_specs_filter(entries: Seq<(Seq<char>, Seq<char>)>)
    ensures
        linked_specs(entries) =~~= entries.filter(
            |p: (Seq<char>, Seq<char>)| has_tcp_suffix(p.0),
        ).map_values(|p: (Seq<char>, Seq<char>)| linked_spec_of(p.1)),
    decreases entries.len(),
{
    let pred = |p: (Seq<char>, Seq<char>)| has_tcp_suffix(p.0);
    let f = |p: (Seq<char>, Seq<char>)| linked_spec_of(p.1);
    if entries.len() > 0 {
        lemma_linked_specs_filter(entries.drop_last());
        let done = entries.drop_last().filter(pred);
        reveal(Seq::filter);
        if pred(entries.last()) {
            assert(done.push(entries.last()).map_values(f) =~= done.map_values(f).push(
                f(entries.last()),
            ));
        }
    }
}

/// With `WAIT_TARGETS` defined and every comma-separated piece resolving,
/// discovery yields exactly one target per piece, in the given order, each
/// keeping its piece as the display name — whatever `TARGETS` holds.
pub proof fn lemma_explicit_discovery_exact(
    entries: Seq<(Seq<char>, Seq<char>)>,
    v: Seq<char>,
    tv: Seq<TargetView>,
)
    requires
        lookup(entries, "WAIT_TARGETS"@) == Some(v),
        resolve_specs(split_on(v, ',')) == Ok::<Seq<TargetView>, Seq<char>>(tv),
    ensures
        explicit_specs(entries) == Some(split_on(v, ',')),
        tv.len() == split_on(v, ',').len(),
        forall|i: int|
            0 <= i < tv.len() ==> #[trigger] tv[i].target_name == split_on(v, ',')[i],
{
    lemma_wait_targets_precedence(entries, v);
    lemma_resolve_specs_ok(split_on(v, ','), tv);
}

/// With the linked-container entries all resolving, discovery yields
/// exactly one target per `_TCP` key, in enumeration order, each named by
/// its value's characters from index six on.
pub proof fn lemma_linked_discovery_exact(entries: Seq<(Seq<char>, Seq<char>)>, tv: Seq<TargetView>)
    requires
        resolve_specs(linked_specs(entries)) == Ok::<Seq<TargetView>, Seq<char>>(tv),
    ensures
        tv.len() == entries.filter(|p: (Seq<char>, Seq<char>)| has_tcp_suffix(p.0)).len(),
        forall|i: int|
            0 <= i < tv.len() ==> #[trigger] tv[i].target_name == linked_spec_of(
                entries.filter(|p: (Seq<char>, Seq<char>)| has_tcp_suffix(p.0))[i].1,
            ),
{
    lemma_linked_specs_filter(entries);
    lemma_resolve_specs_ok(linked_specs(entries), tv);
}

/// With no explicit list and no `_TCP` key, no rule yields a target.
pub proof fn lemma_no_targets(entries: Seq<(Seq<char>, Seq<char>)>)
    requires
        first_defined(entries, "WAIT_TARGETS"@, "TARGETS"@) is None,
        linked_specs(entries).len() == 0,
    ensures
        all_specs(entries) is None,
{
}

/// With `WAIT_TIMEOUT` defined and parsing, the timeout is its value:
/// `TIMEOUT` plays no part.
pub proof fn lemma_wait_timeout_precedence(entries: Seq<(Seq<char>, Seq<char>)>, v: Seq<char>)
    requires
        lookup(entries, "WAIT_TIMEOUT"@) == Some(v),
        timeout_parses(v),
    ensures
        timeout_value(entries) == timeout_seconds(v),
{
}

/// A defined but unparsable timeout value falls back to the default.
pub proof fn lemma_invalid_timeout_default(entries: Seq<(Seq<char>, Seq<char>)>, v: Seq<char>)
    requires
        first_defined(entries, "WAIT_TIMEOUT"@, "TIMEOUT"@) == Some(v),
        !timeout_parses(v),
    ensures
        timeout_value(entries) == DEFAULT_TIMEOUT,
{
}

/// With no timeout variable defined, the timeout is the default.
pub proof fn lemma_no_timeout_default(entries: Seq<(Seq<char>, Seq<char>)>)
    requires
        lookup(entries, "WAIT_TIMEOUT"@) is None,
        lookup(entries, "TIMEOUT"@) is None,
    ensures
        timeout_value(entries) == DEFAULT_TIMEOUT,
{
}

} // verus!
