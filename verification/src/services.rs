//! Service routing table of the tunnel gateway.

use vstd::prelude::*;
use vstd::string::{StrSliceExecFns, StringExecFns};

use crate::text::{join2, join3, parse_u16, quote, rsplit_once, same_text, split_once, IntError};

verus! {

/// Why a `name=host:port` spec is refused.
#[derive(Debug, Clone)]
pub enum SpecError {
    /// There is no `=` in this spec.
    NoEquals(String),
    /// There is nothing before the `=` in this spec.
    EmptyName(String),
    /// The upstream of this service has no port.
    MissingPort(String),
    /// The upstream of this service has this for a port, which is none.
    BadPort { name: String, port: String, cause: IntError },
}

/// A [`SpecError`] as plain values.
pub enum SpecErrorView {
    NoEquals(Seq<char>),
    EmptyName(Seq<char>),
    MissingPort(Seq<char>),
    BadPort { name: Seq<char>, port: Seq<char>, cause: IntError },
}

impl View for SpecError {
    type V = SpecErrorView;

    open spec fn view(&self) -> SpecErrorView {
        match self {
            SpecError::NoEquals(s) => SpecErrorView::NoEquals(s@),
            SpecError::EmptyName(s) => SpecErrorView::EmptyName(s@),
            SpecError::MissingPort(s) => SpecErrorView::MissingPort(s@),
            SpecError::BadPort { name, port, cause } => SpecErrorView::BadPort {
                name: name@,
                port: port@,
                cause: *cause,
            },
        }
    }
}

impl SpecErrorView {
    /// The diagnostic, causes included.
    pub open spec fn text(self) -> Seq<char> {
        match self {
            SpecErrorView::NoEquals(spec) => "invalid --service "@ + crate::text::quoted(spec)
                + ": expected name=host:port"@,
            SpecErrorView::EmptyName(spec) => "empty service name in "@ + crate::text::quoted(spec),
            SpecErrorView::MissingPort(name) => "invalid upstream for service "@
                + crate::text::quoted(name) + ": missing :port"@,
            SpecErrorView::BadPort { name, port, cause } => "invalid upstream for service "@
                + crate::text::quoted(name) + (": port "@ + crate::text::quoted(port)
                + " is not a valid u16: "@) + cause.text(),
        }
    }
}

impl SpecError {
    /// The diagnostic, causes included.
    pub fn to_string(&self) -> (res: String)
        ensures
            res@ == self@.text(),
    {
        match self {
            SpecError::NoEquals(spec) => {
                let spec = quote(spec.as_str());
                join3("invalid --service ", spec.as_str(), ": expected name=host:port")
            },
            SpecError::EmptyName(spec) => {
                let spec = quote(spec.as_str());
                join2("empty service name in ", spec.as_str())
            },
            SpecError::MissingPort(name) => {
                let name = quote(name.as_str());
                join3("invalid upstream for service ", name.as_str(), ": missing :port")
            },
            SpecError::BadPort { name, port, cause } => {
                let name = quote(name.as_str());
                let port = quote(port.as_str());
                let port = join3(": port ", port.as_str(), " is not a valid u16: ");
                let mut out = join3(
                    "invalid upstream for service ",
                    name.as_str(),
                    port.as_str(),
                );
                let cause = cause.to_string();
                out.append(cause.as_str());
                out
            },
        }
    }
}

/// Whether an upstream address ends in `:port` with a 16-bit port.
pub open spec fn valid_upstream(addr: Seq<char>) -> bool {
    match crate::text::split_last(addr, ':') {
        Some((host, port)) => crate::text::u16_of(port) is Some,
        None => false,
    }
}

/// What a spec says: the name of a service and its upstream address.
pub open spec fn parse_spec(spec: Seq<char>) -> Result<(Seq<char>, Seq<char>), SpecErrorView> {
    match crate::text::split_first(spec, '=') {
        None => Err(SpecErrorView::NoEquals(spec)),
        Some((name, addr)) => if name.len() == 0 {
            Err(SpecErrorView::EmptyName(spec))
        } else {
            match crate::text::split_last(addr, ':') {
                None => Err(SpecErrorView::MissingPort(name)),
                Some((host, port)) => match crate::text::u16_of(port) {
                    Some(_) => Ok((name, addr)),
                    None => Err(
                        SpecErrorView::BadPort { name, port, cause: crate::text::u16_error(port) },
                    ),
                },
            }
        },
    }
}

/// A service name that a spec can carry.
pub open spec fn valid_name(name: Seq<char>) -> bool {
    name.len() > 0 && !name.contains('=')
}

/// One routable service: its name and its upstream address.
#[derive(Debug)]
struct Entry {
    name: String,
    target: String,
}

/// Allowlist of routable services: `service id -> host:port`.
///
/// Anything not listed here is rejected by the gateway, so exposing the
/// gateway can never turn it into an open proxy.
#[derive(Debug)]
pub struct ServiceMap {
    entries: Vec<Entry>,
}

/// The map that a list of entries stands for.
spec fn entries_map(entries: Seq<Entry>) -> Map<Seq<char>, Seq<char>>
    decreases entries.len(),
{
    if entries.len() == 0 {
        Map::empty()
    } else {
        entries_map(entries.drop_last()).insert(entries.last().name@, entries.last().target@)
    }
}

spec fn distinct_names(entries: Seq<Entry>) -> bool {
    forall|i: int, j: int|
        0 <= i < j < entries.len() ==> (#[trigger] entries[i]).name@ != (
        #[trigger] entries[j]).name@
}

impl View for ServiceMap {
    type V = Map<Seq<char>, Seq<char>>;

    closed spec fn view(&self) -> Map<Seq<char>, Seq<char>> {
        entries_map(self.entries@)
    }
}

/// Every name listed is one that a spec can carry, and every target ends in a
/// port.
pub open spec fn valid_services(services: Map<Seq<char>, Seq<char>>) -> bool {
    forall|name: Seq<char>| #[trigger]
        services.contains_key(name) ==> valid_name(name) && valid_upstream(services[name])
}

proof fn lemma_entries_dom(entries: Seq<Entry>, name: Seq<char>)
    ensures
        entries_map(entries).contains_key(name) <==> exists|i: int|
            0 <= i < entries.len() && (#[trigger] entries[i]).name@ == name,
        entries_map(entries).dom().finite(),
    decreases entries.len(),
{
    if entries.len() > 0 {
        let rest = entries.drop_last();
        lemma_entries_dom(rest, name);
        if exists|i: int| 0 <= i < rest.len() && (#[trigger] rest[i]).name@ == name {
            let i = choose|i: int| 0 <= i < rest.len() && (#[trigger] rest[i]).name@ == name;
            assert(entries[i].name@ == name);
        }
        if exists|i: int| 0 <= i < entries.len() && (#[trigger] entries[i]).name@ == name {
            let i = choose|i: int| 0 <= i < entries.len() && (#[trigger] entries[i]).name@ == name;
            if i < rest.len() {
                assert(rest[i].name@ == name);
            }
        }
        if entries.last().name@ == name {
            assert(entries[entries.len() - 1].name@ == name);
        }
    }
}

proof fn lemma_entries_get(entries: Seq<Entry>, i: int)
    requires
        distinct_names(entries),
        0 <= i < entries.len(),
    ensures
        entries_map(entries).contains_key(entries[i].name@),
        entries_map(entries)[entries[i].name@] == entries[i].target@,
    decreases entries.len(),
{
    let rest = entries.drop_last();
    if i < rest.len() {
        assert(distinct_names(rest)) by {
            assert forall|a: int, b: int| 0 <= a < b < rest.len() implies (
            #[trigger] rest[a]).name@ != (#[trigger] rest[b]).name@ by {
                assert(rest[a] == entries[a] && rest[b] == entries[b]);
            }
        }
        lemma_entries_get(rest, i);
        assert(rest[i] == entries[i]);
        assert(entries[i].name@ != entries[entries.len() - 1].name@);
    }
}

proof fn lemma_entries_len(entries: Seq<Entry>)
    requires
        distinct_names(entries),
    ensures
        entries_map(entries).dom().finite(),
        entries_map(entries).len() == entries.len(),
    decreases entries.len(),
{
    if entries.len() > 0 {
        let rest = entries.drop_last();
        assert(distinct_names(rest)) by {
            assert forall|a: int, b: int| 0 <= a < b < rest.len() implies (
            #[trigger] rest[a]).name@ != (#[trigger] rest[b]).name@ by {
                assert(rest[a] == entries[a] && rest[b] == entries[b]);
            }
        }
        lemma_entries_len(rest);
        let name = entries.last().name@;
        lemma_entries_dom(rest, name);
        if entries_map(rest).contains_key(name) {
            let i = choose|i: int| 0 <= i < rest.len() && (#[trigger] rest[i]).name@ == name;
            assert(entries[i].name@ != entries[entries.len() - 1].name@);
        }
        assert(entries_map(entries).dom() =~= entries_map(rest).dom().insert(name));
    }
}

/// Replacing the target of one entry replaces it in the map.
proof fn lemma_entries_update(entries: Seq<Entry>, i: int, e: Entry)
    requires
        distinct_names(entries),
        0 <= i < entries.len(),
        e.name@ == entries[i].name@,
    ensures
        distinct_names(entries.update(i, e)),
        entries_map(entries.update(i, e)) == entries_map(entries).insert(e.name@, e.target@),
{
    let new = entries.update(i, e);
    assert forall|a: int, b: int| 0 <= a < b < new.len() implies (#[trigger] new[a]).name@ != (
    #[trigger] new[b]).name@ by {
        assert(entries[a].name@ != entries[b].name@);
    }
    let m = entries_map(new);
    let n = entries_map(entries).insert(e.name@, e.target@);
    assert forall|name: Seq<char>| #[trigger] m.dom().contains(name) implies n.dom().contains(name)
        && m[name] == n[name] by {
        lemma_entries_dom(new, name);
        lemma_entries_dom(entries, name);
        let k = choose|k: int| 0 <= k < new.len() && (#[trigger] new[k]).name@ == name;
        assert(entries[k].name@ == name);
        lemma_entries_get(new, k);
        lemma_entries_get(entries, k);
        if k != i {
            assert(entries[k].name@ != entries[i].name@) by {
                if k < i {
                    assert(entries[k].name@ != entries[i].name@);
                } else {
                    assert(entries[i].name@ != entries[k].name@);
                }
            }
        }
    }
    assert forall|name: Seq<char>| #[trigger] n.dom().contains(name) implies m.dom().contains(
        name,
    ) by {
        lemma_entries_dom(new, name);
        lemma_entries_dom(entries, name);
        if name == e.name@ {
            assert(new[i].name@ == name);
        } else {
            let k = choose|k: int| 0 <= k < entries.len() && (#[trigger] entries[k]).name@ == name;
            assert(new[k].name@ == name);
        }
    }
    assert(m.dom() =~= n.dom());
    assert(m =~= n);
}

impl ServiceMap {
    /// No service is listed twice, and every entry is one a spec can carry.
    #[verifier::type_invariant]
    spec fn wf(self) -> bool {
        distinct_names(self.entries@) && valid_services(self@)
    }

    /// A map without services.
    pub fn new() -> (res: Self)
        ensures
            res@ == Map::<Seq<char>, Seq<char>>::empty(),
    {
        ServiceMap { entries: Vec::new() }
    }

    /// Build a map from `name=host:port` specs, rejecting malformed entries.
    pub fn from_specs(specs: &[String]) -> (res: Result<Self, SpecError>)
        ensures
            match res {
                Ok(map) => specs_map(specs@) == Ok::<
                    Map<Seq<char>, Seq<char>>,
                    SpecErrorView,
                >(map@),
                Err(e) => specs_map(specs@) == Err::<Map<Seq<char>, Seq<char>>, SpecErrorView>(e@),
            },
    {
        let mut map = ServiceMap::new();
        let mut i: usize = 0;
        while i < specs.len()
            invariant
                i <= specs@.len(),
                specs_map(specs@.take(i as int)) == Ok::<
                    Map<Seq<char>, Seq<char>>,
                    SpecErrorView,
                >(map@),
            decreases specs@.len() - i,
        {
            assert(specs@.take(i + 1).drop_last() =~= specs@.take(i as int));
            assert(specs@.take(i + 1).last() == specs@[i as int]);
            match map.insert_spec(specs[i].as_str()) {
                Ok(_) => {},
                Err(e) => {
                    proof {
                        lemma_specs_error(specs@, i + 1, e@);
                    }
                    return Err(e);
                },
            }
            i = i + 1;
        }
        assert(specs@.take(i as int) =~= specs@);
        Ok(map)
    }

    /// Insert one `name=host:port` spec; the last spec for a name wins.
    pub fn insert_spec(&mut self, spec: &str) -> (res: Result<(), SpecError>)
        ensures
            match parse_spec(spec@) {
                Ok((name, addr)) => res is Ok && final(self)@ == old(self)@.insert(name, addr),
                Err(error) => (res matches Err(e) && e@ == error) && final(self)@ == old(self)@,
            },
    {
        match split_once(spec, '=') {
            None => Err(SpecError::NoEquals(spec.to_owned())),
            Some((name, addr)) => {
                if name.as_str().unicode_len() == 0 {
                    return Err(SpecError::EmptyName(spec.to_owned()));
                }
                match validate_upstream(name.as_str(), addr.as_str()) {
                    Err(e) => Err(e),
                    Ok(_) => {
                        self.insert(name, addr);
                        Ok(())
                    },
                }
            },
        }
    }

    /// List a service, or give a listed one a new target.
    fn insert(&mut self, name: String, target: String)
        requires
            valid_name(name@),
            valid_upstream(target@),
        ensures
            final(self)@ == old(self)@.insert(name@, target@),
    {
        proof {
            use_type_invariant(&*self);
        }
        let found = self.find(name.as_str());
        let entry = Entry { name, target };
        let mut entries: Vec<Entry> = Vec::new();
        std::mem::swap(&mut self.entries, &mut entries);
        let ghost before = entries@;
        match found {
            Some(i) => {
                proof {
                    lemma_entries_update(before, i as int, entry);
                }
                entries.set(i, entry);
            },
            None => {
                entries.push(entry);
                assert(entries@.drop_last() =~= before);
                proof {
                    lemma_entries_dom(before, entry.name@);
                    let new = entries@;
                    assert forall|a: int, b: int| 0 <= a < b < new.len() implies (
                    #[trigger] new[a]).name@ != (#[trigger] new[b]).name@ by {
                        assert(new[a] == before[a]);
                        if b < before.len() {
                            assert(new[b] == before[b]);
                        }
                    }
                }
            },
        }
        self.entries = entries;
    }

    /// Where a service is listed.
    fn find(&self, name: &str) -> (res: Option<usize>)
        ensures
            match res {
                Some(i) => i < self.entries@.len() && self.entries@[i as int].name@ == name@
                    && self@.contains_key(name@) && self@[name@]
                    == self.entries@[i as int].target@,
                None => !self@.contains_key(name@),
            },
    {
        proof {
            use_type_invariant(self);
        }
        let mut i: usize = 0;
        while i < self.entries.len()
            invariant
                self.wf(),
                i <= self.entries@.len(),
                forall|k: int| 0 <= k < i ==> (#[trigger] self.entries@[k]).name@ != name@,
            decreases self.entries@.len() - i,
        {
            if same_text(self.entries[i].name.as_str(), name) {
                proof {
                    lemma_entries_get(self.entries@, i as int);
                }
                return Some(i);
            }
            i = i + 1;
        }
        proof {
            lemma_entries_dom(self.entries@, name@);
        }
        None
    }

    /// The target of a service, where it is listed. A listed name is one that
    /// a spec can carry, and its target ends in a port.
    pub fn get(&self, service_id: &str) -> (res: Option<&str>)
        ensures
            match res {
                Some(target) => self@.contains_key(service_id@) && target@ == self@[service_id@]
                    && valid_name(service_id@) && valid_upstream(target@),
                None => !self@.contains_key(service_id@),
            },
    {
        proof {
            use_type_invariant(self);
        }
        match self.find(service_id) {
            Some(i) => Some(self.entries[i].target.as_str()),
            None => None,
        }
    }

    pub fn len(&self) -> (res: usize)
        ensures
            self@.dom().finite(),
            res == self@.len(),
    {
        proof {
            use_type_invariant(self);
            lemma_entries_len(self.entries@);
        }
        self.entries.len()
    }

    pub fn is_empty(&self) -> (res: bool)
        ensures
            res == (self@.len() == 0),
    {
        proof {
            use_type_invariant(self);
            lemma_entries_len(self.entries@);
        }
        self.entries.len() == 0
    }
}

impl Clone for ServiceMap {
    fn clone(&self) -> (res: Self)
        ensures
            res@ == self@,
    {
        proof {
            use_type_invariant(self);
        }
        let mut entries: Vec<Entry> = Vec::new();
        let mut i: usize = 0;
        while i < self.entries.len()
            invariant
                i <= self.entries@.len(),
                entries@.len() == i,
                forall|k: int|
                    #![trigger entries@[k]]
                    0 <= k < i ==> entries@[k].name@ == self.entries@[k].name@
                        && entries@[k].target@ == self.entries@[k].target@,
            decreases self.entries@.len() - i,
        {
            entries.push(
                Entry {
                    name: self.entries[i].name.as_str().to_owned(),
                    target: self.entries[i].target.as_str().to_owned(),
                },
            );
            i = i + 1;
        }
        proof {
            lemma_same_entries(entries@, self.entries@);
        }
        ServiceMap { entries }
    }
}

impl Default for ServiceMap {
    fn default() -> (res: Self)
        ensures
            res@ == Map::<Seq<char>, Seq<char>>::empty(),
    {
        ServiceMap::new()
    }
}

/// Entries that read the same stand for the same map.
proof fn lemma_same_entries(a: Seq<Entry>, b: Seq<Entry>)
    requires
        a.len() == b.len(),
        forall|k: int|
            #![trigger a[k]]
            0 <= k < a.len() ==> a[k].name@ == b[k].name@ && a[k].target@ == b[k].target@,
    ensures
        entries_map(a) == entries_map(b),
        distinct_names(b) ==> distinct_names(a),
    decreases a.len(),
{
    if a.len() > 0 {
        assert forall|k: int| #![trigger a.drop_last()[k]] 0 <= k < a.len() - 1 implies {
            a.drop_last()[k].name@ == b.drop_last()[k].name@ && a.drop_last()[k].target@
                == b.drop_last()[k].target@
        } by {
            assert(a.drop_last()[k] == a[k]);
        }
        lemma_same_entries(a.drop_last(), b.drop_last());
        assert(a[a.len() - 1] == a.last());
    }
    if distinct_names(b) {
        assert forall|i: int, j: int| 0 <= i < j < a.len() implies (#[trigger] a[i]).name@ != (
        #[trigger] a[j]).name@ by {
            assert(b[i].name@ != b[j].name@);
        }
    }
}

/// Reject obviously invalid upstreams early so typos fail at startup.
fn validate_upstream(name: &str, addr: &str) -> (res: Result<(), SpecError>)
    ensures
        match crate::text::split_last(addr@, ':') {
            None => res matches Err(e) && e@ == SpecErrorView::MissingPort(name@),
            Some((host, port)) => match crate::text::u16_of(port) {
                Some(_) => res is Ok,
                None => res matches Err(e) && e@ == (SpecErrorView::BadPort {
                    name: name@,
                    port,
                    cause: crate::text::u16_error(port),
                }),
            },
        },
{
    match rsplit_once(addr, ':') {
        None => Err(SpecError::MissingPort(name.to_owned())),
        Some((_, port)) => match parse_u16(port.as_str()) {
            Ok(_) => Ok(()),
            Err(cause) => Err(SpecError::BadPort { name: name.to_owned(), port, cause }),
        },
    }
}

/// The map that a list of specs stands for: the last spec for a name wins, the
/// first malformed spec is reported.
pub open spec fn specs_map(specs: Seq<String>) -> Result<Map<Seq<char>, Seq<char>>, SpecErrorView>
    decreases specs.len(),
{
    if specs.len() == 0 {
        Ok(Map::empty())
    } else {
        match specs_map(specs.drop_last()) {
            Err(e) => Err(e),
            Ok(map) => match parse_spec(specs.last()@) {
                Ok((name, addr)) => Ok(map.insert(name, addr)),
                Err(e) => Err(e),
            },
        }
    }
}

/// An error in the first specs is the error of all of them.
proof fn lemma_specs_error(specs: Seq<String>, n: int, e: SpecErrorView)
    requires
        0 <= n <= specs.len(),
        specs_map(specs.take(n)) == Err::<Map<Seq<char>, Seq<char>>, SpecErrorView>(e),
    ensures
        specs_map(specs) == Err::<Map<Seq<char>, Seq<char>>, SpecErrorView>(e),
    decreases specs.len(),
{
    if n == specs.len() {
        assert(specs.take(n) =~= specs);
    } else {
        assert(specs.drop_last().take(n) =~= specs.take(n));
        lemma_specs_error(specs.drop_last(), n, e);
    }
}

// ---------------------------------------------------------------------------
// Laws
// ---------------------------------------------------------------------------

/// A spec made of a listed name and its target says just that.
pub proof fn law_spec_roundtrip(name: Seq<char>, addr: Seq<char>)
    requires
        valid_name(name),
        valid_upstream(addr),
    ensures
        parse_spec(name + seq!['='] + addr) == Ok::<(Seq<char>, Seq<char>), SpecErrorView>(
            (name, addr),
        ),
{
    crate::text::lemma_split_first(name, '=', addr);
}

/// A spec names a service that a map can list, with an upstream that ends in a
/// port, or is refused.
pub proof fn law_accepted_spec_is_valid(spec: Seq<char>)
    ensures
        parse_spec(spec) matches Ok((name, addr)) ==> valid_name(name) && valid_upstream(addr)
            && spec == name + seq!['='] + addr,
{
    lemma_split_first_parts(spec, '=');
}

proof fn lemma_split_first_parts(s: Seq<char>, c: char)
    ensures
        crate::text::split_first(s, c) matches Some((head, tail)) ==> s == head + seq![c] + tail
            && !head.contains(c),
    decreases s.len(),
{
    if s.len() > 0 {
        if s[0] == c {
            assert(s =~= Seq::<char>::empty() + seq![c] + s.skip(1));
        } else {
            lemma_split_first_parts(s.skip(1), c);
            if let Some((head, tail)) = crate::text::split_first(s.skip(1), c) {
                let whole = seq![s[0]] + head;
                assert(s =~= seq![s[0]] + s.skip(1));
                assert(whole + seq![c] + tail =~= seq![s[0]] + (head + seq![c] + tail));
                assert forall|x: char| whole.contains(x) implies x == s[0] || head.contains(x) by {
                    let i = choose|i: int| 0 <= i < whole.len() && whole[i] == x;
                    if i > 0 {
                        assert(head[i - 1] == x);
                    }
                }
            }
        }
    }
}

/// Whether a spec is for the service of this name.
pub open spec fn is_for(spec: Seq<char>, name: Seq<char>) -> bool {
    parse_spec(spec) matches Ok((n, _)) && n == name
}

/// A map built from specs lists a service exactly when some spec is for it.
pub proof fn law_listed_iff_named(specs: Seq<String>, name: Seq<char>)
    requires
        specs_map(specs) is Ok,
    ensures
        specs_map(specs)->Ok_0.contains_key(name) <==> exists|i: int|
            0 <= i < specs.len() && is_for((#[trigger] specs[i])@, name),
    decreases specs.len(),
{
    if specs.len() > 0 {
        let rest = specs.drop_last();
        law_listed_iff_named(rest, name);
        if exists|i: int| 0 <= i < rest.len() && is_for((#[trigger] rest[i])@, name) {
            let i = choose|i: int| 0 <= i < rest.len() && is_for((#[trigger] rest[i])@, name);
            assert(is_for(specs[i]@, name));
        }
        if exists|i: int| 0 <= i < specs.len() && is_for((#[trigger] specs[i])@, name) {
            let i = choose|i: int| 0 <= i < specs.len() && is_for((#[trigger] specs[i])@, name);
            if i < rest.len() {
                assert(is_for(rest[i]@, name));
            }
        }
        if is_for(specs.last()@, name) {
            assert(is_for(specs[specs.len() - 1]@, name));
        }
    }
}

/// Of several specs for one service, the last gives its target.
pub proof fn law_last_spec_wins(specs: Seq<String>, i: int, name: Seq<char>, addr: Seq<char>)
    requires
        specs_map(specs) is Ok,
        0 <= i < specs.len(),
        parse_spec(specs[i]@) == Ok::<(Seq<char>, Seq<char>), SpecErrorView>((name, addr)),
        forall|j: int| i < j < specs.len() ==> !is_for((#[trigger] specs[j])@, name),
    ensures
        specs_map(specs)->Ok_0.contains_key(name),
        specs_map(specs)->Ok_0[name] == addr,
    decreases specs.len(),
{
    if i < specs.len() - 1 {
        let rest = specs.drop_last();
        assert forall|j: int| i < j < rest.len() implies !is_for((#[trigger] rest[j])@, name) by {
            assert(rest[j] == specs[j]);
        }
        law_last_spec_wins(rest, i, name, addr);
        assert(!is_for(specs[specs.len() - 1]@, name));
    }
}

/// A spec is accepted exactly where it is a name, an equals sign and an
/// upstream that ends in a colon and a 16-bit port; the name is not empty and
/// ends at the first equals sign, the port begins behind the last colon.
pub proof fn law_accepted_specs(
    spec: Seq<char>,
    name: Seq<char>,
    host: Seq<char>,
    port: Seq<char>,
)
    requires
        spec == name + seq!['='] + (host + seq![':'] + port),
        name.len() > 0,
        !name.contains('='),
        !port.contains(':'),
    ensures
        crate::text::u16_of(port) is Some ==> parse_spec(spec) == Ok::<
            (Seq<char>, Seq<char>),
            SpecErrorView,
        >((name, host + seq![':'] + port)),
        crate::text::u16_of(port) is None ==> parse_spec(spec) == Err::<
            (Seq<char>, Seq<char>),
            SpecErrorView,
        >(SpecErrorView::BadPort { name, port, cause: crate::text::u16_error(port) }),
        valid_upstream(host + seq![':'] + port) <==> crate::text::u16_of(port) is Some,
        valid_name(name),
{
    crate::text::lemma_split_first(name, '=', host + seq![':'] + port);
    crate::text::lemma_split_last(host, ':', port);
}

/// A spec without an equals sign, without a name before it, or without a colon
/// behind it is refused for that.
pub proof fn law_refused_specs(name: Seq<char>, addr: Seq<char>)
    requires
        name.len() > 0,
        !name.contains('='),
        !addr.contains(':'),
    ensures
        parse_spec(name) == Err::<(Seq<char>, Seq<char>), SpecErrorView>(
            SpecErrorView::NoEquals(name),
        ),
        parse_spec(seq!['='] + addr) == Err::<(Seq<char>, Seq<char>), SpecErrorView>(
            SpecErrorView::EmptyName(seq!['='] + addr),
        ),
        parse_spec(name + seq!['='] + addr) == Err::<(Seq<char>, Seq<char>), SpecErrorView>(
            SpecErrorView::MissingPort(name),
        ),
        !valid_upstream(addr),
        !valid_name(seq!['='] + addr),
        !valid_name(Seq::empty()),
{
    crate::text::lemma_split_absent(name, '=');
    crate::text::lemma_split_first(name, '=', addr);
    crate::text::lemma_split_absent(addr, ':');
    let nameless = seq!['='] + addr;
    assert(Seq::<char>::empty() + seq!['='] + addr =~= nameless);
    crate::text::lemma_split_first(Seq::empty(), '=', addr);
    assert(nameless[0] == '=');
}

/// One more spec lists its service, in place of what was listed under the same
/// name, and leaves the others alone; one that is malformed refuses the whole
/// list, unless an earlier one already did.
pub proof fn law_specs_add_up(specs: Seq<String>, spec: String)
    ensures
        specs_map(Seq::empty()) == Ok::<Map<Seq<char>, Seq<char>>, SpecErrorView>(Map::empty()),
        specs_map(specs) matches Ok(map) ==> (parse_spec(spec@) matches Ok((name, addr)) ==> (
        specs_map(specs.push(spec)) matches Ok(more) && more.contains_key(name) && more[name]
            == addr && forall|other: Seq<char>|
            other != name ==> (more.contains_key(other) == #[trigger] map.contains_key(other))
                && more[other] == map[other])),
        specs_map(specs) is Ok ==> (parse_spec(spec@) matches Err(e) ==> specs_map(specs.push(spec))
            == Err::<Map<Seq<char>, Seq<char>>, SpecErrorView>(e)),
        specs_map(specs) matches Err(e) ==> specs_map(specs.push(spec)) == Err::<
            Map<Seq<char>, Seq<char>>,
            SpecErrorView,
        >(e),
{
    assert(specs.push(spec).drop_last() =~= specs);
}

} // verus!
