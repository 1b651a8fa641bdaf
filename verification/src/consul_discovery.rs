//! Turning a Consul health report for the `users` service into registry
//! instances.

use crate::service_registry::{
    ServiceInstance, ServiceRegistry, spec_register,
};
use vstd::prelude::*;

verus! {

/// The service whose instances Consul reports.
pub const USERS_SERVICE: &'static str = "users";

/// Consul's health endpoint for the `users` service.
pub const CONSUL_USERS_HEALTH_URL: &'static str = "http://localhost:8500/v1/health/service/users";

/// The address used when an entry names none.
pub const DEFAULT_ADDRESS: &'static str = "127.0.0.1";

/// The port used when an entry names none.
pub const DEFAULT_PORT: u64 = 8001;

/// What the gateway reads of one entry of Consul's health report: the status
/// of each health check (`None` when it is not a text), and the service's
/// `ID`, `Address` and `Port` when they are present with the right type.
pub struct ConsulEntry {
    pub check_statuses: Vec<Option<String>>,
    pub service_id: Option<String>,
    pub address: Option<String>,
    pub port: Option<u64>,
}

/// A health check status that reads `passing`.
pub open spec fn status_passing(status: Option<String>) -> bool {
    status matches Some(s) && s@ == "passing"@
}

/// Every health check of `e` is passing.
pub open spec fn entry_passing(e: ConsulEntry) -> bool {
    forall|k: int| 0 <= k < e.check_statuses@.len() ==> status_passing(#[trigger] e.check_statuses@[k])
}

/// The decimal digit for `d`.
pub open spec fn digit_char(d: nat) -> char {
    if d == 0 {
        '0'
    } else if d == 1 {
        '1'
    } else if d == 2 {
        '2'
    } else if d == 3 {
        '3'
    } else if d == 4 {
        '4'
    } else if d == 5 {
        '5'
    } else if d == 6 {
        '6'
    } else if d == 7 {
        '7'
    } else if d == 8 {
        '8'
    } else {
        '9'
    }
}

/// The decimal text of `n`, without leading zeros.
pub open spec fn decimal(n: nat) -> Seq<char>
    decreases n,
{
    if n < 10 {
        seq![digit_char(n)]
    } else {
        decimal(n / 10).push(digit_char(n % 10))
    }
}

/// The URL of the instance in `e`: `http://address:port`, with the defaults
/// for a missing address or port.
pub open spec fn entry_url(e: ConsulEntry) -> Seq<char> {
    let address = match e.address {
        Some(a) => a@,
        None => DEFAULT_ADDRESS@,
    };
    let port = match e.port {
        Some(p) => p,
        None => DEFAULT_PORT,
    };
    "http://"@ + address + ":"@ + decimal(port as nat)
}

/// The id of the instance in `e`, empty when missing.
pub open spec fn entry_id(e: ConsulEntry) -> Seq<char> {
    match e.service_id {
        Some(i) => i@,
        None => Seq::empty(),
    }
}

/// `i` is the instance that entry `e` describes: its id and URL, healthy, with
/// no connections.
pub open spec fn describes(i: ServiceInstance, e: ConsulEntry) -> bool {
    &&& i.id@ == entry_id(e)
    &&& i.url@ == entry_url(e)
    &&& i.healthy
    &&& i.connections == 0
}

/// The entries whose checks all pass, in order.
pub open spec fn passing_entries(s: Seq<ConsulEntry>) -> Seq<ConsulEntry>
    decreases s.len(),
{
    if s.len() == 0 {
        Seq::empty()
    } else {
        let rest = passing_entries(s.drop_last());
        if entry_passing(s.last()) {
            rest.push(s.last())
        } else {
            rest
        }
    }
}

/// `list` holds, in order, one instance for each entry of `entries` whose
/// checks all pass.
pub open spec fn instances_for(list: Seq<ServiceInstance>, entries: Seq<ConsulEntry>) -> bool {
    let p = passing_entries(entries);
    &&& list.len() == p.len()
    &&& forall|k: int| 0 <= k < list.len() ==> describes(#[trigger] list[k], p[k])
}

/// The text of digit `d`.
fn digit_text(d: u64) -> (t: &'static str)
    requires
        d < 10,
    ensures
        t@ == seq![digit_char(d as nat)],
{
    proof {
        reveal_strlit("0");
        reveal_strlit("1");
        reveal_strlit("2");
        reveal_strlit("3");
        reveal_strlit("4");
        reveal_strlit("5");
        reveal_strlit("6");
        reveal_strlit("7");
        reveal_strlit("8");
        reveal_strlit("9");
    }
    if d == 0 {
        "0"
    } else if d == 1 {
        "1"
    } else if d == 2 {
        "2"
    } else if d == 3 {
        "3"
    } else if d == 4 {
        "4"
    } else if d == 5 {
        "5"
    } else if d == 6 {
        "6"
    } else if d == 7 {
        "7"
    } else if d == 8 {
        "8"
    } else {
        "9"
    }
}

/// Appends the decimal text of `n` to `s`.
pub fn push_decimal(s: &mut String, n: u64)
    ensures
        final(s)@ == old(s)@ + decimal(n as nat),
    decreases n,
{
    if n >= 10 {
        push_decimal(s, n / 10);
    }
    s.append(digit_text(n % 10));
    assert(decimal(n as nat) == if n < 10 {
        seq![digit_char(n as nat)]
    } else {
        decimal((n / 10) as nat).push(digit_char((n % 10) as nat))
    });
    assert(final(s)@ =~= old(s)@ + decimal(n as nat));
}

/// The instance that entry `e` describes.
pub fn instance_from_entry(e: &ConsulEntry) -> (i: ServiceInstance)
    ensures
        describes(i, *e),
{
    let id = match &e.service_id {
        Some(i) => i.clone(),
        None => String::new(),
    };
    let mut url = "http://".to_owned();
    match &e.address {
        Some(a) => url.append(a.as_str()),
        None => url.append(DEFAULT_ADDRESS),
    }
    url.append(":");
    let port = match e.port {
        Some(p) => p,
        None => DEFAULT_PORT,
    };
    push_decimal(&mut url, port);
    assert(url@ =~= entry_url(*e));
    ServiceInstance { id, url, healthy: true, connections: 0 }
}

/// Every health check of `e` is passing.
pub fn entry_is_passing(e: &ConsulEntry) -> (ok: bool)
    ensures
        ok == entry_passing(*e),
{
    let passing = "passing".to_owned();
    let n = e.check_statuses.len();
    for k in 0..n
        invariant
            n == e.check_statuses@.len(),
            passing@ == "passing"@,
            forall|j: int|
                0 <= j < k ==> status_passing(#[trigger] e.check_statuses@[j]),
    {
        match &e.check_statuses[k] {
            Some(s) => {
                if *s != passing {
                    return false;
                }
            },
            None => {
                return false;
            },
        }
    }
    true
}

/// One instance for each entry whose checks all pass, in order.
pub fn instances_from_entries(entries: &Vec<ConsulEntry>) -> (list: Vec<ServiceInstance>)
    ensures
        instances_for(list@, entries@),
{
    let mut list: Vec<ServiceInstance> = Vec::new();
    let n = entries.len();
    for k in 0..n
        invariant
            n == entries@.len(),
            instances_for(list@, entries@.take(k as int)),
    {
        assert(entries@.take(k + 1).drop_last() =~= entries@.take(k as int));
        if entry_is_passing(&entries[k]) {
            let i = instance_from_entry(&entries[k]);
            list.push(i);
        }
    }
    assert(entries@.take(n as int) =~= entries@);
    list
}

/// Registers the instances that Consul reports healthy as the instances of
/// `users`; leaves the registry as it was when none is healthy. Returns
/// whether the registry was updated.
pub fn discover_services(registry: &mut ServiceRegistry, entries: &Vec<ConsulEntry>) -> (updated: bool)
    requires
        old(registry).wf(),
    ensures
        final(registry).wf(),
        updated <==> passing_entries(entries@).len() > 0,
        updated ==> exists|list: Seq<ServiceInstance>|
            instances_for(list, entries@) && final(registry)@ == #[trigger] spec_register(
                old(registry)@,
                USERS_SERVICE@,
                list,
            ),
        !updated ==> final(registry)@ == old(registry)@,
{
    let list = instances_from_entries(entries);
    if list.len() > 0 {
        let ghost l = list@;
        registry.register(USERS_SERVICE, list);
        assert(instances_for(l, entries@) && final(registry)@ == spec_register(old(registry)@, USERS_SERVICE@, l));
        true
    } else {
        false
    }
}

} // verus!
