//! Registered backend instances per service, and the choice of one healthy
//! instance by a load-balancing strategy.

use rand::seq::SliceRandom;
use vstd::hash_map::StringHashMap;
use vstd::prelude::*;

verus! {

/// One backend instance of a service.
pub struct ServiceInstance {
    pub id: String,
    pub url: String,
    pub healthy: bool,
    pub connections: usize,
}

impl Clone for ServiceInstance {
    fn clone(&self) -> (r: Self)
        ensures
            r == *self,
    {
        ServiceInstance {
            id: self.id.clone(),
            url: self.url.clone(),
            healthy: self.healthy,
            connections: self.connections,
        }
    }
}

/// How `select_instance` picks among the healthy instances.
pub enum LoadBalancingStrategy {
    RoundRobin,
    Random,
    LeastConnections,
}

/// The healthy instances of `s`, in their order.
pub open spec fn healthy_instances(s: Seq<ServiceInstance>) -> Seq<ServiceInstance>
    decreases s.len(),
{
    if s.len() == 0 {
        Seq::empty()
    } else {
        let rest = healthy_instances(s.drop_last());
        if s.last().healthy {
            rest.push(s.last())
        } else {
            rest
        }
    }
}

}

verus! {

/// Lemma: the healthy instances of `s` are healthy and are taken from `s`.
pub proof fn lemma_healthy_instances_members(s: Seq<ServiceInstance>)
    ensures
        healthy_instances(s).len() <= s.len(),
        forall|k: int|
            0 <= k < healthy_instances(s).len() ==> (#[trigger] healthy_instances(s)[k]).healthy
                && s.contains(healthy_instances(s)[k]),
    decreases s.len(),
{
    if s.len() > 0 {
        lemma_healthy_instances_members(s.drop_last());
        let rest = healthy_instances(s.drop_last());
        assert forall|k: int| 0 <= k < healthy_instances(s).len() implies (
        #[trigger] healthy_instances(s)[k]).healthy && s.contains(healthy_instances(s)[k]) by {
            if k < rest.len() {
                let x = rest[k];
                assert(s.drop_last().contains(x));
                let t = choose|t: int| 0 <= t < s.drop_last().len() && s.drop_last()[t] == x;
                assert(s[t] == x);
            } else {
                assert(s[s.len() - 1] == s.last());
            }
        }
    }
}

/// The registry seen as two maps from service name: the instance lists, and the
/// round-robin cursor of each service.
#[verifier::ext_equal]
pub struct RegistryView {
    pub instances: Map<Seq<char>, Seq<ServiceInstance>>,
    pub cursors: Map<Seq<char>, usize>,
}

/// Every cursor can be advanced by one without overflow.
pub open spec fn cursors_bounded(v: RegistryView) -> bool {
    forall|k: Seq<char>| #[trigger] v.cursors.contains_key(k) ==> v.cursors[k] < usize::MAX
}

/// Every instance list fits a `Vec`: its length is at most `usize::MAX`.
pub open spec fn lists_bounded(v: RegistryView) -> bool {
    forall|k: Seq<char>| #[trigger] v.instances.contains_key(k) ==> v.instances[k].len() <= usize::MAX
}

/// The healthy instances registered under `name` (empty when nothing is registered).
pub open spec fn registered_healthy(v: RegistryView, name: Seq<char>) -> Seq<ServiceInstance> {
    if v.instances.contains_key(name) {
        healthy_instances(v.instances[name])
    } else {
        Seq::empty()
    }
}

/// The round-robin cursor of `name`, 0 when it has none.
pub open spec fn cursor_of(v: RegistryView, name: Seq<char>) -> nat {
    if v.cursors.contains_key(name) {
        v.cursors[name] as nat
    } else {
        0
    }
}

/// The instance that a round-robin selection on `name` returns.
pub open spec fn round_robin_pick(v: RegistryView, name: Seq<char>) -> ServiceInstance {
    let h = registered_healthy(v, name);
    h[(cursor_of(v, name) % h.len()) as int]
}

/// The registry after a round-robin selection on `name`: the cursor moves one
/// step along the healthy instances.
pub open spec fn round_robin_next(v: RegistryView, name: Seq<char>) -> RegistryView {
    let h = registered_healthy(v, name);
    RegistryView {
        instances: v.instances,
        cursors: v.cursors.insert(name, ((cursor_of(v, name) + 1) % h.len()) as usize),
    }
}

/// `h[k]` has the fewest connections in `h`, and no earlier instance has as few.
pub open spec fn is_first_least_loaded(h: Seq<ServiceInstance>, k: int) -> bool {
    &&& 0 <= k < h.len()
    &&& forall|j: int| 0 <= j < h.len() ==> h[k].connections <= #[trigger] h[j].connections
    &&& forall|j: int| 0 <= j < k ==> h[k].connections < #[trigger] h[j].connections
}

/// The registry after `register(name, list)`.
pub open spec fn spec_register(v: RegistryView, name: Seq<char>, list: Seq<ServiceInstance>) -> RegistryView {
    RegistryView { instances: v.instances.insert(name, list), cursors: v.cursors.insert(name, 0) }
}

/// `i`, taken out of service when its id is `id`.
pub open spec fn marked(i: ServiceInstance, id: Seq<char>) -> ServiceInstance {
    if i.id@ == id {
        ServiceInstance { id: i.id, url: i.url, healthy: false, connections: i.connections }
    } else {
        i
    }
}

/// `s` with every instance whose id is `id` taken out of service.
pub open spec fn mark_list(s: Seq<ServiceInstance>, id: Seq<char>) -> Seq<ServiceInstance> {
    Seq::new(s.len(), |k: int| marked(s[k], id))
}

/// The registry after `mark_unhealthy(name, id)`.
pub open spec fn spec_mark_unhealthy(v: RegistryView, name: Seq<char>, id: Seq<char>) -> RegistryView {
    if v.instances.contains_key(name) {
        RegistryView {
            instances: v.instances.insert(name, mark_list(v.instances[name], id)),
            cursors: v.cursors,
        }
    } else {
        v
    }
}

/// One operation on the registry, as it changes the registry: a selection on
/// a service (which moves the cursor only for round robin), taking an id out
/// of service, or registering a list.
pub enum RegistryOp {
    Select { name: Seq<char>, round_robin: bool },
    MarkUnhealthy { name: Seq<char>, id: Seq<char> },
    Register { name: Seq<char>, list: Seq<ServiceInstance> },
}

/// The registry after the operation `op`.
pub open spec fn apply_op(v: RegistryView, op: RegistryOp) -> RegistryView {
    match op {
        RegistryOp::Select { name, round_robin } => {
            if round_robin && registered_healthy(v, name).len() > 0 {
                round_robin_next(v, name)
            } else {
                v
            }
        },
        RegistryOp::MarkUnhealthy { name, id } => spec_mark_unhealthy(v, name, id),
        RegistryOp::Register { name, list } => spec_register(v, name, list),
    }
}

/// The registry after the operations `ops`, in order.
pub open spec fn apply_ops(v: RegistryView, ops: Seq<RegistryOp>) -> RegistryView
    decreases ops.len(),
{
    if ops.len() == 0 {
        v
    } else {
        apply_op(apply_ops(v, ops.drop_last()), ops.last())
    }
}

/// Picks one of `items` at random from the thread-local generator; `None`
/// exactly when `items` is empty.
/// Calls `rand::seq::SliceRandom::choose` on `rand::thread_rng()`; the contract
/// claims only that the pick is one of the items, not how it is distributed.
#[verifier::external_body]
fn choose_instance(items: &[ServiceInstance]) -> (r: Option<&ServiceInstance>)
    ensures
        r is None <==> items@.len() == 0,
        r matches Some(x) ==> items@.contains(*x),
{
    items.choose(&mut rand::thread_rng())
}

/// Instances registered per service name, with a round-robin cursor per service.
pub struct ServiceRegistry {
    instances: StringHashMap<Vec<ServiceInstance>>,
    current_index: StringHashMap<usize>,
}

impl View for ServiceRegistry {
    type V = RegistryView;

    closed spec fn view(&self) -> RegistryView {
        RegistryView {
            instances: self.instances@.map_values(|l: Vec<ServiceInstance>| l@),
            cursors: self.current_index@,
        }
    }
}

impl ServiceRegistry {
    /// The registry's well-formedness: no cursor is at the top of its range.
    pub open spec fn wf(&self) -> bool {
        cursors_bounded(self@) && lists_bounded(self@)
    }

    /// An empty registry.
    pub fn new() -> (r: Self)
        ensures
            r@.instances == Map::<Seq<char>, Seq<ServiceInstance>>::empty(),
            r@.cursors == Map::<Seq<char>, usize>::empty(),
            r.wf(),
    {
        let r = ServiceRegistry { instances: StringHashMap::new(), current_index: StringHashMap::new() };
        assert(r@.instances =~= Map::<Seq<char>, Seq<ServiceInstance>>::empty());
        r
    }

    /// Registers `instances` as the instances of `service_name`, replacing any
    /// earlier list, and restarts its round-robin rotation.
    pub fn register(&mut self, service_name: &str, instances: Vec<ServiceInstance>)
        requires
            old(self).wf(),
        ensures
            final(self).wf(),
            final(self)@ == spec_register(old(self)@, service_name@, instances@),
    {
        let ghost v = self@;
        let ghost list = instances@;
        assert(list.len() <= usize::MAX) by {
            assert(instances.len() == list.len());
        }
        self.instances.insert(service_name.to_owned(), instances);
        self.current_index.insert(service_name.to_owned(), 0);
        assert(self@.instances =~= v.instances.insert(service_name@, list));
        assert(self@ =~= spec_register(v, service_name@, list));
    }

    /// Takes every instance of `service_name` whose id is `instance_id` out of service.
    pub fn mark_unhealthy(&mut self, service_name: &str, instance_id: &str)
        requires
            old(self).wf(),
        ensures
            final(self).wf(),
            final(self)@ == spec_mark_unhealthy(old(self)@, service_name@, instance_id@),
            final(self)@.cursors == old(self)@.cursors,
            final(self)@.instances.dom() == old(self)@.instances.dom(),
            old(self)@.instances.contains_key(service_name@) ==> final(self)@.instances[service_name@].len()
                == old(self)@.instances[service_name@].len(),
            old(self)@.instances.contains_key(service_name@) ==> forall|k: int|
                0 <= k < old(self)@.instances[service_name@].len()
                    && (#[trigger] old(self)@.instances[service_name@][k]).id@ != instance_id@
                    ==> final(self)@.instances[service_name@][k] == old(self)@.instances[service_name@][k],
            old(self)@.instances.contains_key(service_name@) ==> forall|k: int|
                0 <= k < old(self)@.instances[service_name@].len()
                    && (#[trigger] old(self)@.instances[service_name@][k]).id@ == instance_id@
                    ==> !final(self)@.instances[service_name@][k].healthy,
    {
        let ghost v = self@;
        let target = instance_id.to_owned();
        let updated = match self.instances.get(service_name) {
            Some(list) => {
                let mut updated: Vec<ServiceInstance> = Vec::new();
                let n = list.len();
                for k in 0..n
                    invariant
                        n == list@.len(),
                        target@ == instance_id@,
                        updated@.len() == k,
                        forall|t: int| 0 <= t < k ==> #[trigger] updated@[t] == marked(list@[t], instance_id@),
                {
                    let item = &list[k];
                    if item.id == target {
                        updated.push(ServiceInstance {
                            id: item.id.clone(),
                            url: item.url.clone(),
                            healthy: false,
                            connections: item.connections,
                        });
                    } else {
                        updated.push(item.clone());
                    }
                }
                assert(updated@ =~= mark_list(list@, instance_id@));
                Some(updated)
            },
            None => None,
        };
        if let Some(updated) = updated {
            let ghost l = updated@;
            self.instances.insert(service_name.to_owned(), updated);
            assert(self@.instances =~= v.instances.insert(service_name@, l));
        }
        assert(self@ =~= spec_mark_unhealthy(v, service_name@, instance_id@));
        proof {
            lemma_mark_unhealthy_exact(v, service_name@, instance_id@);
        }
    }

    /// Picks one healthy instance of `service_name` by `strategy`; `None` when the
    /// service is not registered or none of its instances is healthy.
    pub fn select_instance(&mut self, service_name: &str, strategy: LoadBalancingStrategy) -> (r:
        Option<ServiceInstance>)
        requires
            old(self).wf(),
        ensures
            final(self).wf(),
            ({
                let v = old(self)@;
                let h = registered_healthy(v, service_name@);
                if h.len() == 0 {
                    r is None && final(self)@ == v
                } else {
                    match strategy {
                        LoadBalancingStrategy::RoundRobin => {
                            &&& r == Some(round_robin_pick(v, service_name@))
                            &&& final(self)@ == round_robin_next(v, service_name@)
                        },
                        LoadBalancingStrategy::Random => {
                            &&& r matches Some(x) && h.contains(x)
                            &&& final(self)@ == v
                        },
                        LoadBalancingStrategy::LeastConnections => {
                            &&& exists|k: int| is_first_least_loaded(h, k) && r == Some(h[k])
                            &&& final(self)@ == v
                        },
                    }
                }
            }),
            r matches Some(x) ==> x.healthy && old(self)@.instances[service_name@].contains(x)
                && registered_healthy(old(self)@, service_name@).contains(x),
            final(self)@ == apply_op(
                old(self)@,
                RegistryOp::Select { name: service_name@, round_robin: strategy is RoundRobin },
            ),
    {
        let ghost v = self@;
        let list = match self.instances.get(service_name) {
            Some(list) => list,
            None => {
                return None;
            },
        };
        if list.len() == 0 {
            return None;
        }
        let mut healthy: Vec<ServiceInstance> = Vec::new();
        let n = list.len();
        for k in 0..n
            invariant
                n == list@.len(),
                healthy@ == healthy_instances(list@.take(k as int)),
        {
            assert(list@.take(k + 1).drop_last() =~= list@.take(k as int));
            if list[k].healthy {
                healthy.push(list[k].clone());
            }
        }
        assert(list@.take(n as int) =~= list@);
        assert(v.instances[service_name@] == list@);
        proof {
            lemma_healthy_instances_members(list@);
        }
        let len = healthy.len();
        if len == 0 {
            return None;
        }
        match strategy {
            LoadBalancingStrategy::RoundRobin => {
                let idx = match self.current_index.get(service_name) {
                    Some(i) => *i,
                    None => 0,
                };
                let selected = healthy[idx % len].clone();
                let new_idx = (idx + 1) % len;
                self.current_index.insert(service_name.to_owned(), new_idx);
                assert(self@ =~= round_robin_next(v, service_name@));
                Some(selected)
            },
            LoadBalancingStrategy::Random => {
                match choose_instance(healthy.as_slice()) {
                    Some(x) => Some(x.clone()),
                    None => None,
                }
            },
            LoadBalancingStrategy::LeastConnections => {
                let mut best: usize = 0;
                for j in 1..len
                    invariant
                        len == healthy@.len(),
                        best < j,
                        forall|t: int| 0 <= t < j ==> healthy@[best as int].connections <= #[trigger] healthy@[t].connections,
                        forall|t: int| 0 <= t < best ==> healthy@[best as int].connections < #[trigger] healthy@[t].connections,
                {
                    if healthy[j].connections < healthy[best].connections {
                        best = j;
                    }
                }
                assert(is_first_least_loaded(healthy@, best as int));
                Some(healthy[best].clone())
            },
        }
    }
}

} // verus!

verus! {

/// In a registry whose lists fit a `Vec`, the healthy instances of a service
/// number at most `usize::MAX` too.
pub proof fn lemma_healthy_count_bounded(v: RegistryView, name: Seq<char>)
    requires
        lists_bounded(v),
    ensures
        registered_healthy(v, name).len() <= usize::MAX,
{
    if v.instances.contains_key(name) {
        lemma_healthy_instances_members(v.instances[name]);
    }
}

/// The registry after `n` round-robin selections on `name`.
pub open spec fn round_robin_steps(v: RegistryView, name: Seq<char>, n: nat) -> RegistryView
    decreases n,
{
    if n == 0 {
        v
    } else {
        round_robin_next(round_robin_steps(v, name, (n - 1) as nat), name)
    }
}

/// Law: round-robin selections on one service walk its healthy instances in
/// order and wrap around: after `n` selections, the next one returns the
/// healthy instance at position `(cursor + n) % count`; the selections change
/// no instance list.
pub proof fn lemma_round_robin_cycles(v: RegistryView, name: Seq<char>, n: nat)
    requires
        registered_healthy(v, name).len() > 0,
        lists_bounded(v),
    ensures
        round_robin_steps(v, name, n).instances == v.instances,
        round_robin_pick(round_robin_steps(v, name, n), name) == registered_healthy(v, name)[
            ((cursor_of(v, name) + n) % registered_healthy(v, name).len()) as int],
    decreases n,
{
    lemma_healthy_count_bounded(v, name);
    let h = registered_healthy(v, name);
    let len = h.len() as int;
    if n > 0 {
        let prev = round_robin_steps(v, name, (n - 1) as nat);
        lemma_round_robin_cycles(v, name, (n - 1) as nat);
        let c = cursor_of(prev, name) as int;
        assert(registered_healthy(prev, name) == h);
        let next = round_robin_steps(v, name, n);
        assert(cursor_of(next, name) == (c + 1) % len);
        assert(c % len == (cursor_of(v, name) + n - 1) % len) by {
            lemma_cursor_tracks(v, name, (n - 1) as nat);
        }
        lemma_cursor_tracks(v, name, n);
    }
}

/// After `n` round-robin selections the cursor, taken modulo the number of
/// healthy instances, has moved `n` places.
proof fn lemma_cursor_tracks(v: RegistryView, name: Seq<char>, n: nat)
    requires
        registered_healthy(v, name).len() > 0,
        registered_healthy(v, name).len() <= usize::MAX,
    ensures
        round_robin_steps(v, name, n).instances == v.instances,
        cursor_of(round_robin_steps(v, name, n), name) % registered_healthy(v, name).len() == (
        cursor_of(v, name) + n) % registered_healthy(v, name).len(),
    decreases n,
{
    let len = registered_healthy(v, name).len() as int;
    if n > 0 {
        lemma_cursor_tracks(v, name, (n - 1) as nat);
        let prev = round_robin_steps(v, name, (n - 1) as nat);
        let c = cursor_of(prev, name) as int;
        let c0 = cursor_of(v, name) as int;
        assert(registered_healthy(prev, name) == registered_healthy(v, name));
        assert(cursor_of(round_robin_steps(v, name, n), name) == (c + 1) % len);
        vstd::arithmetic::div_mod::lemma_mod_twice(c + 1, len);
        vstd::arithmetic::div_mod::lemma_add_mod_noop(c, 1, len);
        vstd::arithmetic::div_mod::lemma_add_mod_noop(c0 + n - 1, 1, len);
    }
}

/// Law: right after `register`, round-robin selection starts at the first
/// healthy instance of the new list and then walks that list in order.
pub proof fn lemma_register_restarts_rotation(
    v: RegistryView,
    name: Seq<char>,
    list: Seq<ServiceInstance>,
    n: nat,
)
    requires
        healthy_instances(list).len() > 0,
        lists_bounded(v),
        list.len() <= usize::MAX,
    ensures
        round_robin_pick(spec_register(v, name, list), name) == healthy_instances(list)[0],
        round_robin_pick(round_robin_steps(spec_register(v, name, list), name, n), name)
            == healthy_instances(list)[(n % healthy_instances(list).len()) as int],
{
    lemma_healthy_instances_members(list);
    let r = spec_register(v, name, list);
    assert(registered_healthy(r, name) == healthy_instances(list));
    assert(lists_bounded(r));
    lemma_round_robin_cycles(r, name, n);
}

/// Law: once an instance id is marked unhealthy in a service, no healthy
/// instance of that service carries that id, so no strategy selects it.
pub proof fn lemma_marked_never_selected(v: RegistryView, name: Seq<char>, id: Seq<char>)
    ensures
        forall|k: int|
            0 <= k < registered_healthy(spec_mark_unhealthy(v, name, id), name).len()
                ==> (#[trigger] registered_healthy(spec_mark_unhealthy(v, name, id), name)[k]).id@
                != id,
{
    let w = spec_mark_unhealthy(v, name, id);
    if v.instances.contains_key(name) {
        let m = mark_list(v.instances[name], id);
        assert(w.instances[name] == m);
        lemma_healthy_instances_members(m);
        assert forall|k: int| 0 <= k < registered_healthy(w, name).len() implies (
        #[trigger] registered_healthy(w, name)[k]).id@ != id by {
            let x = registered_healthy(w, name)[k];
            assert(m.contains(x));
            let t = choose|t: int| 0 <= t < m.len() && m[t] == x;
            assert(m[t] == marked(v.instances[name][t], id));
        }
    }
}

} // verus!

verus! {

/// Law: starting from a cursor at 0 (as right after `register`), `n`
/// round-robin selections over `n` healthy instances return each of them once,
/// in order, and leave the cursor at 0 again.
pub proof fn lemma_round_robin_full_cycle(v: RegistryView, name: Seq<char>)
    requires
        registered_healthy(v, name).len() > 0,
        lists_bounded(v),
        cursor_of(v, name) == 0,
    ensures
        forall|k: int|
            0 <= k < registered_healthy(v, name).len() ==> #[trigger] round_robin_pick(
                round_robin_steps(v, name, k as nat),
                name,
            ) == registered_healthy(v, name)[k],
        cursor_of(round_robin_steps(v, name, registered_healthy(v, name).len()), name) == 0,
{
    lemma_healthy_count_bounded(v, name);
    let h = registered_healthy(v, name);
    let len = h.len();
    assert forall|k: int| 0 <= k < len implies #[trigger] round_robin_pick(
        round_robin_steps(v, name, k as nat),
        name,
    ) == h[k] by {
        lemma_round_robin_cycles(v, name, k as nat);
        vstd::arithmetic::div_mod::lemma_small_mod(k as nat, len);
    }
    lemma_cursor_tracks(v, name, len);
    let prev = round_robin_steps(v, name, (len - 1) as nat);
    lemma_cursor_tracks(v, name, (len - 1) as nat);
    assert(registered_healthy(prev, name) == h);
    let c = cursor_of(prev, name);
    let last = round_robin_steps(v, name, len);
    assert(cursor_of(last, name) == (((c + 1) as int) % (len as int)) as usize);
    vstd::arithmetic::div_mod::lemma_mod_bound((c + 1) as int, len as int);
    vstd::arithmetic::div_mod::lemma_mod_self_0(len as int);
    vstd::arithmetic::div_mod::lemma_small_mod(cursor_of(last, name), len);
}

/// Every instance of `name` whose id is `id` is out of service.
pub open spec fn id_out_of_service(v: RegistryView, name: Seq<char>, id: Seq<char>) -> bool {
    v.instances.contains_key(name) ==> forall|k: int|
        0 <= k < v.instances[name].len() && (#[trigger] v.instances[name][k]).id@ == id
            ==> !v.instances[name][k].healthy
}

/// `op` does not register a list under `name`.
pub open spec fn keeps_list_of(op: RegistryOp, name: Seq<char>) -> bool {
    match op {
        RegistryOp::Register { name: n, list: _ } => n != name,
        _ => true,
    }
}

/// Marking `id` in `name` takes all its instances out of service.
proof fn lemma_mark_takes_out(v: RegistryView, name: Seq<char>, id: Seq<char>)
    ensures
        id_out_of_service(spec_mark_unhealthy(v, name, id), name, id),
{
    let w = spec_mark_unhealthy(v, name, id);
    if v.instances.contains_key(name) {
        let m = mark_list(v.instances[name], id);
        assert(w.instances[name] == m);
        assert forall|k: int| 0 <= k < m.len() && (#[trigger] m[k]).id@ == id implies !m[k].healthy by {
            assert(m[k] == marked(v.instances[name][k], id));
        }
    }
}

/// An operation that registers nothing under `name` keeps the instances of
/// `id` there out of service.
proof fn lemma_op_keeps_out(v: RegistryView, name: Seq<char>, id: Seq<char>, op: RegistryOp)
    requires
        id_out_of_service(v, name, id),
        keeps_list_of(op, name),
    ensures
        id_out_of_service(apply_op(v, op), name, id),
{
    let w = apply_op(v, op);
    match op {
        RegistryOp::Select { name: n, round_robin } => {
            assert(w.instances == v.instances);
        },
        RegistryOp::MarkUnhealthy { name: n, id: other } => {
            if n == name && v.instances.contains_key(name) {
                let s = v.instances[name];
                let m = mark_list(s, other);
                assert(w.instances[name] == m);
                assert forall|k: int| 0 <= k < m.len() && (#[trigger] m[k]).id@ == id implies !m[k].healthy by {
                    assert(m[k] == marked(s[k], other));
                    assert(s[k].id@ == id);
                }
            } else if v.instances.contains_key(n) {
                assert(w.instances =~= v.instances.insert(n, mark_list(v.instances[n], other)));
            }
        },
        RegistryOp::Register { name: n, list } => {
            assert(w.instances == v.instances.insert(n, list));
        },
    }
}

/// A service whose instances of `id` are out of service has no healthy
/// instance with that id.
proof fn lemma_out_of_service_not_healthy(v: RegistryView, name: Seq<char>, id: Seq<char>)
    requires
        id_out_of_service(v, name, id),
    ensures
        forall|k: int|
            0 <= k < registered_healthy(v, name).len() ==> (#[trigger] registered_healthy(v, name)[k]).id@
                != id,
{
    if v.instances.contains_key(name) {
        let s = v.instances[name];
        lemma_healthy_instances_members(s);
        assert forall|k: int| 0 <= k < registered_healthy(v, name).len() implies (
        #[trigger] registered_healthy(v, name)[k]).id@ != id by {
            let x = registered_healthy(v, name)[k];
            assert(s.contains(x));
            let t = choose|t: int| 0 <= t < s.len() && s[t] == x;
            assert(s[t] == x);
        }
    }
}

/// Law: after `mark_unhealthy(name, id)`, and any later operations that do
/// not register a new list under `name` (selections with any strategy,
/// further markings, registrations under other names), no healthy instance of
/// `name` carries `id`, so no selection returns it.
pub proof fn lemma_marked_stays_out(
    v: RegistryView,
    name: Seq<char>,
    id: Seq<char>,
    ops: Seq<RegistryOp>,
)
    requires
        forall|i: int| 0 <= i < ops.len() ==> keeps_list_of(#[trigger] ops[i], name),
    ensures
        id_out_of_service(apply_ops(spec_mark_unhealthy(v, name, id), ops), name, id),
        forall|k: int|
            0 <= k < registered_healthy(apply_ops(spec_mark_unhealthy(v, name, id), ops), name).len()
                ==> (#[trigger] registered_healthy(
                apply_ops(spec_mark_unhealthy(v, name, id), ops),
                name,
            )[k]).id@ != id,
    decreases ops.len(),
{
    let w = spec_mark_unhealthy(v, name, id);
    if ops.len() == 0 {
        lemma_mark_takes_out(v, name, id);
    } else {
        let init = ops.drop_last();
        assert forall|i: int| 0 <= i < init.len() implies keeps_list_of(#[trigger] init[i], name) by {
            assert(init[i] == ops[i]);
        }
        lemma_marked_stays_out(v, name, id, init);
        assert(keeps_list_of(ops[ops.len() - 1], name));
        lemma_op_keeps_out(apply_ops(w, init), name, id, ops.last());
    }
    lemma_out_of_service_not_healthy(apply_ops(w, ops), name, id);
}

} // verus!

verus! {

/// Law: `mark_unhealthy(name, id)` takes out of service exactly the instances
/// of `name` whose id is `id`. Every other instance of that service is left as
/// it was (healthy if it was healthy); the marked ones keep their id, URL and
/// connection count; the list keeps its length and order; other services and
/// all round-robin cursors are untouched.
pub proof fn lemma_mark_unhealthy_exact(v: RegistryView, name: Seq<char>, id: Seq<char>)
    ensures
        spec_mark_unhealthy(v, name, id).cursors == v.cursors,
        spec_mark_unhealthy(v, name, id).instances.dom() == v.instances.dom(),
        forall|other: Seq<char>|
            other != name && #[trigger] v.instances.contains_key(other) ==> spec_mark_unhealthy(
                v,
                name,
                id,
            ).instances[other] == v.instances[other],
        v.instances.contains_key(name) ==> spec_mark_unhealthy(v, name, id).instances[name].len()
            == v.instances[name].len(),
        v.instances.contains_key(name) ==> forall|k: int|
            0 <= k < v.instances[name].len() && (#[trigger] v.instances[name][k]).id@ != id
                ==> spec_mark_unhealthy(v, name, id).instances[name][k] == v.instances[name][k],
        v.instances.contains_key(name) ==> forall|k: int|
            0 <= k < v.instances[name].len() && (#[trigger] v.instances[name][k]).id@ == id ==> {
                let after = spec_mark_unhealthy(v, name, id).instances[name][k];
                &&& !after.healthy
                &&& after.id == v.instances[name][k].id
                &&& after.url == v.instances[name][k].url
                &&& after.connections == v.instances[name][k].connections
            },
{
    let w = spec_mark_unhealthy(v, name, id);
    if v.instances.contains_key(name) {
        assert(w.instances.dom() =~= v.instances.dom());
    }
}

/// Law: marking an id never takes another instance out of service: a service
/// whose instances with other ids were healthy keeps each of them among its
/// healthy instances.
pub proof fn lemma_mark_keeps_other_ids_healthy(v: RegistryView, name: Seq<char>, id: Seq<char>, k: int)
    requires
        v.instances.contains_key(name),
        0 <= k < v.instances[name].len(),
        v.instances[name][k].healthy,
        v.instances[name][k].id@ != id,
    ensures
        registered_healthy(spec_mark_unhealthy(v, name, id), name).contains(v.instances[name][k]),
{
    let s = spec_mark_unhealthy(v, name, id).instances[name];
    lemma_mark_unhealthy_exact(v, name, id);
    assert(s[k] == v.instances[name][k]);
    lemma_healthy_member_listed(s, k);
}

/// A healthy instance of a list is among its healthy instances.
pub proof fn lemma_healthy_member_listed(s: Seq<ServiceInstance>, k: int)
    requires
        0 <= k < s.len(),
        s[k].healthy,
    ensures
        healthy_instances(s).contains(s[k]),
    decreases s.len(),
{
    let rest = healthy_instances(s.drop_last());
    if k == s.len() - 1 {
        assert(healthy_instances(s) == rest.push(s.last()));
        assert(healthy_instances(s)[rest.len() as int] == s[k]);
    } else {
        assert(s.drop_last()[k] == s[k]);
        lemma_healthy_member_listed(s.drop_last(), k);
        let t = choose|t: int| 0 <= t < rest.len() && rest[t] == s[k];
        if s.last().healthy {
            assert(healthy_instances(s)[t] == s[k]);
        } else {
            assert(healthy_instances(s)[t] == s[k]);
        }
    }
}

} // verus!
