//! mDNS discovery data: what a resolved desktop service becomes, and the
//! names this device advertises under.

use vstd::prelude::*;
use crate::text::{concat, str_eq};

verus! {

/// Service type of BedCode hosts.
pub const SERVICE_TYPE: &'static str = "_bedcode._tcp.local.";

/// A resolved service.
#[derive(Debug, Clone, PartialEq, Eq)]
pub struct DiscoveredService {
    /// Instance (full) name.
    pub instance_name: String,
    /// Host name.
    pub host_name: String,
    /// Address (an IPv4 one when there is one; empty when none).
    pub address: String,
    /// Port.
    pub port: u16,
    /// TXT records, one per key.
    pub txt_records: Vec<(String, String)>,
    /// `platform` TXT record, "unknown" without one.
    pub platform: String,
    /// `device_name` TXT record, the host name without one.
    pub device_name: String,
}

/// What this device advertises.
#[derive(Debug, Clone, PartialEq, Eq)]
pub struct AdvertiseConfig {
    /// Instance name.
    pub service_name: String,
    /// Port.
    pub port: u16,
    /// TXT records.
    pub txt_records: Vec<(String, String)>,
}

/// Discovery event for the front end.
#[derive(Debug, Clone, PartialEq, Eq)]
pub enum DiscoveryEvent {
    /// A service appeared (not resolved yet).
    ServiceFound { instance_name: String },
    /// A service was resolved.
    ServiceResolved(DiscoveredService),
    /// A service went away.
    ServiceRemoved { instance_name: String },
}

/// TXT records as a map from key to value; a later record with the same
/// key replaces an earlier one.
pub open spec fn txt_map(props: Seq<(String, String)>) -> Map<Seq<char>, Seq<char>>
    decreases props.len(),
{
    if props.len() == 0 {
        Map::empty()
    } else {
        txt_map(props.drop_last()).insert(props.last().0@, props.last().1@)
    }
}

/// Value of the TXT record with `key`, if any.
pub open spec fn txt_lookup(props: Seq<(String, String)>, key: Seq<char>) -> Option<Seq<char>> {
    if txt_map(props).dom().contains(key) {
        Some(txt_map(props)[key])
    } else {
        None
    }
}

/// No key occurs twice.
pub open spec fn unique_keys(props: Seq<(String, String)>) -> bool {
    forall|i: int, j: int|
        0 <= i < j < props.len() ==> (#[trigger] props[i]).0@ != (#[trigger] props[j]).0@
}

proof fn lemma_txt_map_dom(props: Seq<(String, String)>, key: Seq<char>)
    ensures
        txt_map(props).dom().contains(key) <==> exists|i: int|
            0 <= i < props.len() && (#[trigger] props[i]).0@ == key,
    decreases props.len(),
{
    if props.len() > 0 {
        let init = props.drop_last();
        lemma_txt_map_dom(init, key);
        if txt_map(props).dom().contains(key) && props.last().0@ != key {
            let i = choose|i: int| 0 <= i < init.len() && (#[trigger] init[i]).0@ == key;
            assert(props[i] == init[i]);
        }
        if exists|i: int| 0 <= i < props.len() && (#[trigger] props[i]).0@ == key {
            let i = choose|i: int| 0 <= i < props.len() && (#[trigger] props[i]).0@ == key;
            if i < props.len() - 1 {
                assert(init[i] == props[i]);
            }
        }
    }
}

proof fn lemma_txt_map_update(props: Seq<(String, String)>, j: int, p: (String, String))
    requires
        unique_keys(props),
        0 <= j < props.len(),
        props[j].0@ == p.0@,
    ensures
        txt_map(props.update(j, p)) =~= txt_map(props).insert(p.0@, p.1@),
    decreases props.len(),
{
    let u = props.update(j, p);
    if j == props.len() - 1 {
        assert(u.drop_last() =~= props.drop_last());
    } else {
        let init = props.drop_last();
        assert(u.drop_last() =~= init.update(j, p));
        assert(unique_keys(init)) by {
            assert forall|a: int, b: int| 0 <= a < b < init.len() implies (#[trigger] init[a]).0@
                != (#[trigger] init[b]).0@ by {
                assert(init[a] == props[a] && init[b] == props[b]);
            }
        }
        lemma_txt_map_update(init, j, p);
        assert(props.last().0@ != p.0@) by {
            assert(props[j] == props[props.len() - 1] || j < props.len() - 1);
        }
    }
}

/// TXT records with one entry per key, the value of the last record with
/// that key, in the order the keys first appear.
pub fn collect_txt(props: &[(String, String)]) -> (out: Vec<(String, String)>)
    ensures
        unique_keys(out@),
        txt_map(out@) == txt_map(props@),
{
    let mut out: Vec<(String, String)> = Vec::new();
    let mut i: usize = 0;
    let n = props.len();
    let ghost all = props@;
    while i < n
        invariant
            n == all.len(),
            all == props@,
            i <= n,
            unique_keys(out@),
            txt_map(out@) =~= txt_map(all.take(i as int)),
        decreases n - i,
    {
        let ghost before = out@;
        let p = (props[i].0.clone(), props[i].1.clone());
        proof {
            assert(all.take(i + 1).drop_last() =~= all.take(i as int));
        }
        let mut j: usize = 0;
        let mut found = false;
        while j < out.len()
            invariant_except_break
                !found,
                out@ == before,
                j <= out.len(),
                forall|k: int| 0 <= k < j ==> (#[trigger] out@[k]).0@ != p.0@,
            ensures
                out@ == before,
                found ==> j < out.len() && out@[j as int].0@ == p.0@,
                !found ==> forall|k: int| 0 <= k < out.len() ==> (#[trigger] out@[k]).0@ != p.0@,
            decreases out.len() - j,
        {
            if str_eq(out[j].0.as_str(), p.0.as_str()) {
                found = true;
                break;
            }
            j += 1;
        }
        if found {
            proof {
                lemma_txt_map_update(before, j as int, p);
            }
            out.set(j, p);
            proof {
                assert forall|a: int, b: int| 0 <= a < b < out@.len() implies (#[trigger] out@[a]).0@
                    != (#[trigger] out@[b]).0@ by {
                    assert(out@[a].0@ == before[a].0@ && out@[b].0@ == before[b].0@);
                }
            }
        } else {
            out.push(p);
            proof {
                assert(out@.drop_last() =~= before);
                assert forall|a: int, b: int| 0 <= a < b < out@.len() implies (#[trigger] out@[a]).0@
                    != (#[trigger] out@[b]).0@ by {
                    if b == out@.len() - 1 {
                        assert(before[a] == out@[a]);
                    } else {
                        assert(before[a] == out@[a] && before[b] == out@[b]);
                    }
                }
            }
        }
        i += 1;
    }
    proof {
        assert(all.take(n as int) =~= all);
    }
    out
}

/// Index of the first address flagged IPv4, else -1.
pub open spec fn first_ipv4(addrs: Seq<(String, bool)>) -> int
    decreases addrs.len(),
{
    if addrs.len() == 0 {
        -1
    } else if addrs[0].1 {
        0
    } else {
        let r = first_ipv4(addrs.drop_first());
        if r < 0 {
            -1
        } else {
            r + 1
        }
    }
}

/// The address a service is reached at: the first IPv4 one, else the
/// first one, else none (empty).
pub open spec fn chosen_address(addrs: Seq<(String, bool)>) -> Seq<char> {
    let i = first_ipv4(addrs);
    if i >= 0 {
        addrs[i].0@
    } else if addrs.len() > 0 {
        addrs[0].0@
    } else {
        Seq::empty()
    }
}

/// The value of the last TXT record named `key`.
pub fn txt_value(props: &[(String, String)], key: &str) -> (r: Option<String>)
    ensures
        match txt_lookup(props@, key@) {
            Some(v) => r matches Some(s) && s@ == v,
            None => r is None,
        },
{
    let mut i = props.len();
    proof {
        assert(props@.take(i as int) =~= props@);
    }
    while i > 0
        invariant
            i <= props@.len(),
            txt_lookup(props@, key@) == txt_lookup(props@.take(i as int), key@),
        decreases i,
    {
        let ghost t = props@.take(i as int);
        if str_eq(props[i - 1].0.as_str(), key) {
            return Some(props[i - 1].1.clone());
        }
        proof {
            assert(t.drop_last() =~= props@.take(i - 1));
        }
        i -= 1;
    }
    None
}

proof fn lemma_first_ipv4(addrs: Seq<(String, bool)>, i: int)
    requires
        0 <= i <= addrs.len(),
        forall|k: int| 0 <= k < i ==> !(#[trigger] addrs[k]).1,
        i < addrs.len() ==> addrs[i].1,
    ensures
        first_ipv4(addrs) == (if i < addrs.len() { i } else { -1 }),
    decreases i,
{
    if i > 0 {
        let rest = addrs.drop_first();
        assert forall|k: int| 0 <= k < i - 1 implies !(#[trigger] rest[k]).1 by {
            assert(rest[k] == addrs[k + 1]);
        }
        lemma_first_ipv4(rest, i - 1);
    }
}

fn choose_address(addrs: &[(String, bool)]) -> (a: String)
    ensures
        a@ == chosen_address(addrs@),
{
    let mut i: usize = 0;
    while i < addrs.len()
        invariant
            i <= addrs@.len(),
            forall|k: int| 0 <= k < i ==> !(#[trigger] addrs@[k]).1,
        decreases addrs@.len() - i,
    {
        if addrs[i].1 {
            proof {
                lemma_first_ipv4(addrs@, i as int);
            }
            return addrs[i].0.clone();
        }
        i += 1;
    }
    proof {
        lemma_first_ipv4(addrs@, i as int);
    }
    if addrs.len() > 0 {
        addrs[0].0.clone()
    } else {
        String::new()
    }
}

/// A resolved service from its full name, host name, port, addresses
/// (with their IPv4 flag) and TXT records.
pub fn resolve_service(
    fullname: &str,
    hostname: &str,
    port: u16,
    addresses: &[(String, bool)],
    txt_records: &[(String, String)],
) -> (s: DiscoveredService)
    ensures
        s.instance_name@ == fullname@,
        s.host_name@ == hostname@,
        s.address@ == chosen_address(addresses@),
        s.port == port,
        unique_keys(s.txt_records@),
        txt_map(s.txt_records@) == txt_map(txt_records@),
        s.platform@ == (match txt_lookup(txt_records@, "platform"@) {
            Some(v) => v,
            None => "unknown"@,
        }),
        s.device_name@ == (match txt_lookup(txt_records@, "device_name"@) {
            Some(v) => v,
            None => hostname@,
        }),
{
    let platform = match txt_value(txt_records, "platform") {
        Some(v) => v,
        None => "unknown".to_owned(),
    };
    let device_name = match txt_value(txt_records, "device_name") {
        Some(v) => v,
        None => hostname.to_owned(),
    };
    DiscoveredService {
        instance_name: fullname.to_owned(),
        host_name: hostname.to_owned(),
        address: choose_address(addresses),
        port,
        txt_records: collect_txt(txt_records),
        platform,
        device_name,
    }
}

/// Host name advertised for an instance: `{instance}.local.`.
pub fn advertised_host_name(instance_name: &str) -> (h: String)
    ensures
        h@ == instance_name@ + ".local."@,
{
    concat(instance_name, ".local.")
}

/// Full name under which an instance is registered: `{name}.{SERVICE_TYPE}`.
pub fn registered_fullname(name: &str) -> (f: String)
    ensures
        f@ == name@ + "."@ + SERVICE_TYPE@,
{
    let a = concat(name, ".");
    concat(a.as_str(), SERVICE_TYPE)
}

/// The TXT records of `s` by their views.
pub open spec fn pair_views(s: Seq<(String, String)>) -> Seq<(Seq<char>, Seq<char>)> {
    s.map_values(|p: (String, String)| (p.0@, p.1@))
}

/// `a` and `b` agree on every field.
pub open spec fn same_service(a: DiscoveredService, b: DiscoveredService) -> bool {
    &&& a.instance_name@ == b.instance_name@
    &&& a.host_name@ == b.host_name@
    &&& a.address@ == b.address@
    &&& a.port == b.port
    &&& pair_views(a.txt_records@) == pair_views(b.txt_records@)
    &&& a.platform@ == b.platform@
    &&& a.device_name@ == b.device_name@
}

fn copy_pairs(s: &[(String, String)]) -> (v: Vec<(String, String)>)
    ensures
        pair_views(v@) == pair_views(s@),
{
    let mut v: Vec<(String, String)> = Vec::new();
    let mut i: usize = 0;
    while i < s.len()
        invariant
            i <= s.len(),
            pair_views(v@) =~= pair_views(s@.take(i as int)),
        decreases s.len() - i,
    {
        v.push((s[i].0.clone(), s[i].1.clone()));
        proof {
            assert(pair_views(s@.take(i + 1)) =~= pair_views(s@.take(i as int)).push((s@[i as int].0@, s@[i as int].1@)));
        }
        i += 1;
    }
    proof {
        assert(s@.take(s.len() as int) =~= s@);
    }
    v
}

impl DiscoveredService {
    /// A field-by-field copy.
    pub fn copy(&self) -> (c: DiscoveredService)
        ensures
            same_service(c, *self),
    {
        DiscoveredService {
            instance_name: self.instance_name.clone(),
            host_name: self.host_name.clone(),
            address: self.address.clone(),
            port: self.port,
            txt_records: copy_pairs(self.txt_records.as_slice()),
            platform: self.platform.clone(),
            device_name: self.device_name.clone(),
        }
    }
}

/// Slot `i` of `s` holds the service named `name`.
pub open spec fn slot_named(s: Seq<DiscoveredService>, i: int, name: Seq<char>) -> bool {
    0 <= i < s.len() && s[i].instance_name@ == name
}

/// No two slots share an instance name.
pub open spec fn names_unique(s: Seq<DiscoveredService>) -> bool {
    forall|i: int, j: int|
        0 <= i < s.len() && 0 <= j < s.len() && i != j ==> s[i].instance_name@ != s[j].instance_name@
}

/// The services of `s` by instance name.
pub open spec fn service_map(s: Seq<DiscoveredService>) -> Map<Seq<char>, DiscoveredService> {
    Map::new(
        |k: Seq<char>| exists|i: int| #[trigger] slot_named(s, i, k),
        |k: Seq<char>| s[choose|i: int| #[trigger] slot_named(s, i, k)],
    )
}

proof fn lemma_service_at(s: Seq<DiscoveredService>, i: int)
    requires
        names_unique(s),
        0 <= i < s.len(),
    ensures
        service_map(s).contains_key(s[i].instance_name@),
        service_map(s)[s[i].instance_name@] == s[i],
{
    let k = s[i].instance_name@;
    assert(slot_named(s, i, k));
    let j = choose|j: int| #[trigger] slot_named(s, j, k);
    assert(j == i);
}

proof fn lemma_service_absent(s: Seq<DiscoveredService>, k: Seq<char>)
    requires
        forall|i: int| 0 <= i < s.len() ==> (#[trigger] s[i]).instance_name@ != k,
    ensures
        !service_map(s).contains_key(k),
{
    if exists|i: int| #[trigger] slot_named(s, i, k) {
        let i = choose|i: int| #[trigger] slot_named(s, i, k);
        assert(s[i].instance_name@ != k);
    }
}

proof fn lemma_service_push(s: Seq<DiscoveredService>, x: DiscoveredService)
    requires
        names_unique(s),
        forall|i: int| 0 <= i < s.len() ==> (#[trigger] s[i]).instance_name@ != x.instance_name@,
    ensures
        names_unique(s.push(x)),
        service_map(s.push(x)) == service_map(s).insert(x.instance_name@, x),
{
    let t = s.push(x);
    assert(names_unique(t));
    lemma_service_at(t, s.len() as int);
    assert forall|k: Seq<char>| #[trigger] service_map(t).contains_key(k) == service_map(s).insert(
        x.instance_name@,
        x,
    ).contains_key(k) by {
        if exists|i: int| #[trigger] slot_named(t, i, k) {
            let i = choose|i: int| #[trigger] slot_named(t, i, k);
            if i < s.len() {
                assert(slot_named(s, i, k));
            }
        }
        if exists|i: int| #[trigger] slot_named(s, i, k) {
            let i = choose|i: int| #[trigger] slot_named(s, i, k);
            assert(slot_named(t, i, k));
        }
    }
    assert forall|k: Seq<char>| #[trigger] service_map(t).contains_key(k) implies service_map(t)[k]
        == service_map(s).insert(x.instance_name@, x)[k] by {
        if k != x.instance_name@ {
            let i = choose|i: int| #[trigger] slot_named(t, i, k);
            assert(i < s.len());
            lemma_service_at(t, i);
            lemma_service_at(s, i);
        }
    }
    assert(service_map(t) =~= service_map(s).insert(x.instance_name@, x));
}

proof fn lemma_service_update(s: Seq<DiscoveredService>, j: int, x: DiscoveredService)
    requires
        names_unique(s),
        0 <= j < s.len(),
        s[j].instance_name@ == x.instance_name@,
    ensures
        names_unique(s.update(j, x)),
        service_map(s.update(j, x)) == service_map(s).insert(x.instance_name@, x),
{
    let t = s.update(j, x);
    assert(names_unique(t));
    lemma_service_at(t, j);
    assert forall|k: Seq<char>| #[trigger] service_map(t).contains_key(k) == service_map(s).insert(
        x.instance_name@,
        x,
    ).contains_key(k) by {
        if exists|i: int| #[trigger] slot_named(t, i, k) {
            let i = choose|i: int| #[trigger] slot_named(t, i, k);
            assert(slot_named(s, i, k));
        }
        if exists|i: int| #[trigger] slot_named(s, i, k) {
            let i = choose|i: int| #[trigger] slot_named(s, i, k);
            assert(slot_named(t, i, k));
        }
    }
    assert forall|k: Seq<char>| #[trigger] service_map(t).contains_key(k) implies service_map(t)[k]
        == service_map(s).insert(x.instance_name@, x)[k] by {
        if k != x.instance_name@ {
            let i = choose|i: int| #[trigger] slot_named(t, i, k);
            assert(i != j);
            lemma_service_at(t, i);
            lemma_service_at(s, i);
        }
    }
    assert(service_map(t) =~= service_map(s).insert(x.instance_name@, x));
}

proof fn lemma_service_remove(s: Seq<DiscoveredService>, j: int)
    requires
        names_unique(s),
        0 <= j < s.len(),
    ensures
        names_unique(s.remove(j)),
        service_map(s.remove(j)) == service_map(s).remove(s[j].instance_name@),
{
    let t = s.remove(j);
    let r = s[j].instance_name@;
    assert forall|a: int, b: int| 0 <= a < t.len() && 0 <= b < t.len() && a != b implies t[a].instance_name@
        != t[b].instance_name@ by {
        let a2 = if a < j { a } else { a + 1 };
        let b2 = if b < j { b } else { b + 1 };
        assert(t[a] == s[a2] && t[b] == s[b2]);
    }
    assert forall|k: Seq<char>| #[trigger] service_map(t).contains_key(k) == service_map(s).remove(
        r,
    ).contains_key(k) by {
        if exists|i: int| #[trigger] slot_named(t, i, k) {
            let i = choose|i: int| #[trigger] slot_named(t, i, k);
            let i2 = if i < j { i } else { i + 1 };
            assert(slot_named(s, i2, k));
            assert(i2 != j);
        }
        if exists|i: int| #[trigger] slot_named(s, i, k) {
            let i = choose|i: int| #[trigger] slot_named(s, i, k);
            if k != r {
                assert(i != j);
                let i2 = if i < j { i } else { i - 1 };
                assert(slot_named(t, i2, k));
            }
        }
    }
    assert forall|k: Seq<char>| #[trigger] service_map(t).contains_key(k) implies service_map(t)[k]
        == service_map(s).remove(r)[k] by {
        let i = choose|i: int| #[trigger] slot_named(t, i, k);
        let i2 = if i < j { i } else { i + 1 };
        lemma_service_at(t, i);
        lemma_service_at(s, i2);
    }
    assert(service_map(t) =~= service_map(s).remove(r));
}

/// Browsing state: whether a scan runs, and the services resolved so far
/// by instance name. The daemon and its event stream belong to the caller,
/// which asks `should_start` before creating a daemon, reports `started`,
/// hands each event to `apply`, and reports `loop_exited`.
pub struct MdnsDiscovery {
    scanning: bool,
    services: Vec<DiscoveredService>,
}

impl MdnsDiscovery {
    /// Well-formed: no instance name occurs twice.
    pub closed spec fn wf(&self) -> bool {
        names_unique(self.services@)
    }

    /// Whether a scan is running.
    pub closed spec fn scanning(&self) -> bool {
        self.scanning
    }

    /// The services resolved so far, by instance name.
    pub closed spec fn cache(&self) -> Map<Seq<char>, DiscoveredService> {
        service_map(self.services@)
    }

    /// Not scanning, nothing resolved.
    pub fn new() -> (d: Self)
        ensures
            d.wf(),
            !d.scanning(),
            d.cache() == Map::<Seq<char>, DiscoveredService>::empty(),
    {
        let d = MdnsDiscovery { scanning: false, services: Vec::new() };
        proof {
            assert(d.cache() =~= Map::<Seq<char>, DiscoveredService>::empty());
        }
        d
    }

    /// Whether a scan is running.
    pub fn is_scanning(&self) -> (b: bool)
        ensures
            b == self.scanning(),
    {
        self.scanning
    }

    /// Whether `start` must create a daemon: not while a scan runs.
    pub fn should_start(&self) -> (b: bool)
        ensures
            b == !self.scanning(),
    {
        !self.scanning
    }

    /// Browsing began.
    pub fn started(&mut self)
        requires
            old(self).wf(),
        ensures
            final(self).wf(),
            final(self).scanning(),
            final(self).cache() == old(self).cache(),
    {
        self.scanning = true;
    }

    /// The event loop ended (search stopped, channel closed, or stop seen).
    pub fn loop_exited(&mut self)
        requires
            old(self).wf(),
        ensures
            final(self).wf(),
            !final(self).scanning(),
            final(self).cache() == old(self).cache(),
    {
        self.scanning = false;
    }

    /// `stop`: returns whether a scan was running, in which case the daemon
    /// is to be shut down and the cache is emptied; otherwise nothing changes.
    pub fn stop(&mut self) -> (was: bool)
        requires
            old(self).wf(),
        ensures
            final(self).wf(),
            was == old(self).scanning(),
            !final(self).scanning(),
            was ==> final(self).cache() == Map::<Seq<char>, DiscoveredService>::empty(),
            !was ==> final(self).cache() == old(self).cache(),
    {
        if !self.scanning {
            return false;
        }
        self.scanning = false;
        self.services = Vec::new();
        proof {
            assert(self.cache() =~= Map::<Seq<char>, DiscoveredService>::empty());
        }
        true
    }

    fn slot(&self, name: &str) -> (r: Option<usize>)
        requires
            self.wf(),
        ensures
            match r {
                Some(j) => j < self.services@.len() && self.services@[j as int].instance_name@ == name@,
                None => forall|i: int| 0 <= i < self.services@.len() ==> (#[trigger] self.services@[i]).instance_name@ != name@,
            },
    {
        let mut j: usize = 0;
        while j < self.services.len()
            invariant
                j <= self.services@.len(),
                forall|i: int| 0 <= i < j ==> (#[trigger] self.services@[i]).instance_name@ != name@,
            decreases self.services@.len() - j,
        {
            if str_eq(self.services[j].instance_name.as_str(), name) {
                return Some(j);
            }
            j += 1;
        }
        None
    }

    /// Applies a discovery event to the cache: a resolved service is stored
    /// under its instance name (replacing an earlier one), a removed one is
    /// dropped, a found one changes nothing.
    pub fn apply(&mut self, event: DiscoveryEvent)
        requires
            old(self).wf(),
        ensures
            final(self).wf(),
            final(self).scanning() == old(self).scanning(),
            final(self).cache() == (match event {
                DiscoveryEvent::ServiceFound { .. } => old(self).cache(),
                DiscoveryEvent::ServiceResolved(s) => old(self).cache().insert(s.instance_name@, s),
                DiscoveryEvent::ServiceRemoved { instance_name } => old(self).cache().remove(instance_name@),
            }),
    {
        match event {
            DiscoveryEvent::ServiceFound { .. } => {},
            DiscoveryEvent::ServiceResolved(s) => {
                match self.slot(s.instance_name.as_str()) {
                    Some(j) => {
                        proof {
                            lemma_service_update(self.services@, j as int, s);
                        }
                        self.services.set(j, s);
                    },
                    None => {
                        proof {
                            lemma_service_push(self.services@, s);
                        }
                        self.services.push(s);
                    },
                }
            },
            DiscoveryEvent::ServiceRemoved { instance_name } => {
                match self.slot(instance_name.as_str()) {
                    Some(j) => {
                        proof {
                            lemma_service_remove(self.services@, j as int);
                        }
                        self.services.remove(j);
                    },
                    None => {
                        proof {
                            lemma_service_absent(self.services@, instance_name@);
                            assert(self.cache().remove(instance_name@) =~= self.cache());
                        }
                    },
                }
            },
        }
    }

    /// The resolved services, one per instance name.
    pub fn get_services(&self) -> (v: Vec<DiscoveredService>)
        requires
            self.wf(),
        ensures
            v.len() == self.cache().len(),
            names_unique(v@),
            forall|i: int| 0 <= i < v.len() ==> self.cache().contains_key((#[trigger] v@[i]).instance_name@)
                && same_service(v@[i], self.cache()[v@[i].instance_name@]),
    {
        let mut v: Vec<DiscoveredService> = Vec::new();
        let mut i: usize = 0;
        while i < self.services.len()
            invariant
                self.wf(),
                i <= self.services@.len(),
                v.len() == i,
                forall|k: int| 0 <= k < i ==> same_service(#[trigger] v@[k], self.services@[k]),
            decreases self.services@.len() - i,
        {
            v.push(self.services[i].copy());
            i += 1;
        }
        proof {
            assert forall|a: int, b: int| 0 <= a < v.len() && 0 <= b < v.len() && a != b implies v@[a].instance_name@
                != v@[b].instance_name@ by {
                assert(same_service(v@[a], self.services@[a]));
                assert(same_service(v@[b], self.services@[b]));
            }
            assert forall|k: int| 0 <= k < v.len() implies self.cache().contains_key((#[trigger] v@[k]).instance_name@)
                && same_service(v@[k], self.cache()[v@[k].instance_name@]) by {
                assert(same_service(v@[k], self.services@[k]));
                lemma_service_at(self.services@, k);
            }
            lemma_service_len(self.services@);
        }
        v
    }
}

proof fn lemma_service_len(s: Seq<DiscoveredService>)
    requires
        names_unique(s),
    ensures
        service_map(s).len() == s.len(),
        service_map(s).dom().finite(),
    decreases s.len(),
{
    if s.len() == 0 {
        assert(service_map(s) =~= Map::<Seq<char>, DiscoveredService>::empty());
    } else {
        let init = s.drop_last();
        assert(names_unique(init)) by {
            assert forall|a: int, b: int| 0 <= a < init.len() && 0 <= b < init.len() && a != b implies init[a].instance_name@
                != init[b].instance_name@ by {
                assert(init[a] == s[a] && init[b] == s[b]);
            }
        }
        lemma_service_len(init);
        assert forall|i: int| 0 <= i < init.len() implies (#[trigger] init[i]).instance_name@ != s.last().instance_name@ by {
            assert(init[i] == s[i]);
        }
        lemma_service_push(init, s.last());
        assert(init.push(s.last()) =~= s);
        lemma_service_absent(init, s.last().instance_name@);
    }
}

/// Advertising state: whether this device is advertised, and under which
/// instance name.
pub struct MdnsAdvertiser {
    advertising: bool,
    registered_name: Option<String>,
}

impl MdnsAdvertiser {
    /// Whether the service is advertised.
    pub closed spec fn advertising(&self) -> bool {
        self.advertising
    }

    /// The registered instance name, if any.
    pub closed spec fn registered(&self) -> Option<Seq<char>> {
        match self.registered_name {
            Some(n) => Some(n@),
            None => None,
        }
    }

    /// Not advertising.
    pub fn new() -> (a: Self)
        ensures
            !a.advertising(),
            a.registered() is None,
    {
        MdnsAdvertiser { advertising: false, registered_name: None }
    }

    /// Whether the service is advertised.
    pub fn is_advertising(&self) -> (b: bool)
        ensures
            b == self.advertising(),
    {
        self.advertising
    }

    /// Whether `start` must register a service: not while one is advertised.
    pub fn should_start(&self) -> (b: bool)
        ensures
            b == !self.advertising(),
    {
        !self.advertising
    }

    /// The service was registered under `instance_name`.
    pub fn started(&mut self, instance_name: String)
        ensures
            final(self).advertising(),
            final(self).registered() == Some(instance_name@),
    {
        self.registered_name = Some(instance_name);
        self.advertising = true;
    }

    /// `stop`: while advertising, ends it and returns the full name to
    /// unregister; otherwise changes nothing and returns `None`.
    pub fn stop(&mut self) -> (fullname: Option<String>)
        ensures
            !final(self).advertising(),
            old(self).advertising() ==> final(self).registered() is None && match old(self).registered() {
                Some(n) => fullname matches Some(f) && f@ == n + "."@ + SERVICE_TYPE@,
                None => fullname is None,
            },
            !old(self).advertising() ==> fullname is None && final(self).registered() == old(self).registered(),
    {
        if !self.advertising {
            return None;
        }
        self.advertising = false;
        match self.registered_name.take() {
            Some(name) => Some(registered_fullname(name.as_str())),
            None => None,
        }
    }
}

} // verus!
