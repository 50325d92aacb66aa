//! Registry of device descriptors and the resources they claim.

use crate::error::{AxError, AxResult};
use crate::resource;
use crate::resource::{
    first_malformed, DeviceCapabilities, DeviceDescriptor, DeviceId, Resource, ResourceSet,
};
use vstd::prelude::*;

verus! {

/// A registered device descriptor owned by a VM.
pub struct RegisteredDevice {
    id: DeviceId,
    name: &'static str,
    resources: ResourceSet,
    capabilities: DeviceCapabilities,
}

impl RegisteredDevice {
    /// The capability flags.
    pub closed spec fn spec_capabilities(&self) -> DeviceCapabilities {
        self.capabilities
    }

    /// Creates a registered device descriptor.
    pub fn new(
        id: DeviceId,
        name: &'static str,
        resources: ResourceSet,
        capabilities: DeviceCapabilities,
    ) -> (r: Self)
        ensures
            r.spec_device_id() == id,
            r.spec_name() == name@,
            r.spec_resources() == resources@,
            r.spec_capabilities() == capabilities,
    {
        RegisteredDevice { id, name, resources, capabilities }
    }
}

impl DeviceDescriptor for RegisteredDevice {
    closed spec fn spec_device_id(&self) -> DeviceId {
        self.id
    }

    closed spec fn spec_name(&self) -> Seq<char> {
        self.name@
    }

    closed spec fn spec_resources(&self) -> Seq<Resource> {
        self.resources@
    }

    fn device_id(&self) -> (r: DeviceId) {
        self.id
    }

    fn name(&self) -> (r: &str) {
        self.name
    }

    fn resources(&self) -> (r: ResourceSet) {
        self.resources.clone()
    }

    fn capabilities(&self) -> (r: DeviceCapabilities)
        ensures
            r == self.spec_capabilities(),
    {
        self.capabilities
    }
}

/// All resources claimed by the devices, device by device.
pub open spec fn claims(devices: Seq<RegisteredDevice>) -> Seq<Resource>
    decreases devices.len(),
{
    if devices.len() == 0 {
        Seq::empty()
    } else {
        claims(devices.drop_last()) + devices.last().spec_resources()
    }
}

/// MSI vectors asked for by the resources together.
pub open spec fn msi_total(resources: Seq<Resource>) -> nat
    decreases resources.len(),
{
    if resources.len() == 0 {
        0
    } else {
        msi_total(resources.drop_last()) + resources.last().msi_demand()
    }
}

/// Whether some resource of `wanted` conflicts with one of `held`.
pub open spec fn clashes(wanted: Seq<Resource>, held: Seq<Resource>) -> bool {
    exists|a: int, b: int|
        0 <= a < wanted.len() && 0 <= b < held.len() && (#[trigger] wanted[a]).conflicts(
            #[trigger] held[b],
        )
}

/// Whether two resources of the list conflict with each other.
pub open spec fn clashes_within(resources: Seq<Resource>) -> bool {
    exists|a: int, b: int|
        0 <= b < a < resources.len() && (#[trigger] resources[a]).conflicts(
            #[trigger] resources[b],
        )
}

/// Whether the list can be held at once: every resource is well-formed and no
/// two of them conflict.
pub open spec fn compatible(resources: Seq<Resource>) -> bool {
    !resource::has_malformed(resources) && !clashes_within(resources)
}

/// The sum that `usize::saturating_add` computes.
pub open spec fn saturating_sum(a: nat, b: nat) -> nat {
    if a + b > usize::MAX {
        usize::MAX as nat
    } else {
        a + b
    }
}

/// What a registry that holds `held` under the vector limit answers to a
/// request for `wanted`.
pub open spec fn admission(
    held: Seq<Resource>,
    limit: Option<usize>,
    wanted: Seq<Resource>,
) -> AxResult<()> {
    if resource::has_malformed(wanted) {
        Err(AxError::InvalidInput)
    } else if clashes(wanted, held) || clashes_within(wanted) {
        Err(AxError::AddrInUse)
    } else if limit is Some && saturating_sum(msi_total(held), msi_total(wanted)) > limit->0 {
        Err(AxError::NoMemory)
    } else {
        Ok(())
    }
}

/// Whether the MSI vectors can be counted in a `usize`, where the request gets
/// as far as being counted.
pub open spec fn countable(
    held: Seq<Resource>,
    limit: Option<usize>,
    wanted: Seq<Resource>,
) -> bool {
    limit is Some && !resource::has_malformed(wanted) && !clashes(wanted, held) && !clashes_within(
        wanted,
    ) ==> msi_total(held) <= usize::MAX && msi_total(wanted) <= usize::MAX
}

/// The identifier counter after one identifier was handed out.
pub open spec fn next_after(id: u64) -> u64 {
    if id == u64::MAX {
        id
    } else {
        (id + 1) as u64
    }
}

proof fn lemma_msi_total_add(a: Seq<Resource>, b: Seq<Resource>)
    ensures
        msi_total(a + b) == msi_total(a) + msi_total(b),
    decreases b.len(),
{
    if b.len() == 0 {
        assert(a + b =~= a);
    } else {
        assert((a + b).drop_last() =~= a + b.drop_last());
        lemma_msi_total_add(a, b.drop_last());
    }
}

proof fn lemma_claims_take(devices: Seq<RegisteredDevice>, n: int)
    requires
        0 <= n < devices.len(),
    ensures
        claims(devices.take(n + 1)) == claims(devices.take(n)) + devices[n].spec_resources(),
{
    assert(devices.take(n + 1).drop_last() =~= devices.take(n));
}

proof fn lemma_claims_prefix(devices: Seq<RegisteredDevice>, n: int)
    requires
        0 <= n <= devices.len(),
    ensures
        msi_total(claims(devices.take(n))) <= msi_total(claims(devices)),
    decreases devices.len() - n,
{
    if n == devices.len() {
        assert(devices.take(n) =~= devices);
    } else {
        lemma_claims_take(devices, n);
        lemma_msi_total_add(claims(devices.take(n)), devices[n].spec_resources());
        lemma_claims_prefix(devices, n + 1);
    }
}

proof fn lemma_msi_prefix(resources: Seq<Resource>, n: int)
    requires
        0 <= n <= resources.len(),
    ensures
        msi_total(resources.take(n)) <= msi_total(resources),
{
    assert(resources =~= resources.take(n) + resources.skip(n));
    lemma_msi_total_add(resources.take(n), resources.skip(n));
}

/// Registry of device resources and capabilities.
pub struct DeviceRegistry {
    next_id: u64,
    devices: Vec<RegisteredDevice>,
    msi_vector_limit: Option<usize>,
}

impl DeviceRegistry {
    /// The next identifier to hand out.
    pub closed spec fn spec_next_id(&self) -> u64 {
        self.next_id
    }

    /// The registered devices, oldest first.
    pub closed spec fn spec_devices(&self) -> Seq<RegisteredDevice> {
        self.devices@
    }

    /// The maximum number of MSI vectors, if there is one.
    pub closed spec fn spec_limit(&self) -> Option<usize> {
        self.msi_vector_limit
    }

    /// The resources that are taken.
    pub open spec fn held(&self) -> Seq<Resource> {
        claims(self.spec_devices())
    }

    /// No two registered devices conflict.
    pub open spec fn wf(&self) -> bool {
        compatible(self.held())
    }

    /// Whether registered devices stay below a limit that can be exceeded.
    pub open spec fn within_limit(&self) -> bool {
        self.spec_limit() is Some && self.spec_limit()->0 < usize::MAX ==> msi_total(self.held())
            <= self.spec_limit()->0
    }
}

/// What becomes of the registry when a device is registered from raw data: it is
/// entered under the next identifier if its resources are admitted, and an
/// identifier is used up only then.
pub open spec fn device_registered(
    before: DeviceRegistry,
    after: DeviceRegistry,
    name: Seq<char>,
    resources: Seq<Resource>,
    capabilities: DeviceCapabilities,
    r: AxResult<DeviceId>,
) -> bool {
    match admission(before.held(), before.spec_limit(), resources) {
        Ok(_) => {
            let id = DeviceId(before.spec_next_id());
            &&& r == Ok::<DeviceId, AxError>(id)
            &&& after.spec_next_id() == next_after(before.spec_next_id())
            &&& after.spec_devices().len() == before.spec_devices().len() + 1
            &&& after.spec_devices().drop_last() == before.spec_devices()
            &&& after.spec_devices().last().spec_device_id() == id
            &&& after.spec_devices().last().spec_name() == name
            &&& after.spec_devices().last().spec_resources() == resources
            &&& after.spec_devices().last().spec_capabilities() == capabilities
        },
        Err(error) => {
            &&& r == Err::<DeviceId, AxError>(error)
            &&& after.spec_next_id() == before.spec_next_id()
            &&& after.spec_devices() == before.spec_devices()
        },
    }
}

impl Default for DeviceRegistry {
    fn default() -> (r: Self)
        ensures
            r.spec_next_id() == 0,
            r.spec_devices() == Seq::<RegisteredDevice>::empty(),
            r.spec_limit() is None,
            r.wf(),
    {
        DeviceRegistry { next_id: 0, devices: Vec::new(), msi_vector_limit: None }
    }
}

impl DeviceRegistry {
    /// Creates an empty registry.
    pub fn new() -> (r: Self)
        ensures
            r.spec_next_id() == 1,
            r.spec_devices() == Seq::<RegisteredDevice>::empty(),
            r.spec_limit() is None,
            r.wf(),
    {
        DeviceRegistry { next_id: 1, devices: Vec::new(), msi_vector_limit: None }
    }

    /// Creates an empty registry with a maximum number of MSI/MSI-X vectors.
    pub fn with_msi_vector_limit(limit: usize) -> (r: Self)
        ensures
            r.spec_next_id() == 1,
            r.spec_devices() == Seq::<RegisteredDevice>::empty(),
            r.spec_limit() == Some(limit),
            r.wf(),
            r.within_limit(),
    {
        DeviceRegistry { next_id: 1, devices: Vec::new(), msi_vector_limit: Some(limit) }
    }

    /// Reserves the next device identifier.
    pub fn allocate_id(&mut self) -> (r: DeviceId)
        ensures
            r == DeviceId(old(self).spec_next_id()),
            final(self).spec_next_id() == next_after(old(self).spec_next_id()),
            final(self).spec_devices() == old(self).spec_devices(),
            final(self).spec_limit() == old(self).spec_limit(),
    {
        let id = DeviceId::new(self.next_id);
        self.next_id = self.next_id.saturating_add(1);
        id
    }

    /// Registers a descriptor after validating resources.
    pub fn register(&mut self, device: RegisteredDevice) -> (r: AxResult<DeviceId>)
        requires
            countable(old(self).held(), old(self).spec_limit(), device.spec_resources()),
        ensures
            match admission(old(self).held(), old(self).spec_limit(), device.spec_resources()) {
                Ok(_) => {
                    &&& r == Ok::<DeviceId, AxError>(device.spec_device_id())
                    &&& final(self).spec_devices() == old(self).spec_devices().push(device)
                },
                Err(error) => {
                    &&& r == Err::<DeviceId, AxError>(error)
                    &&& final(self).spec_devices() == old(self).spec_devices()
                },
            },
            final(self).spec_next_id() == old(self).spec_next_id(),
            final(self).spec_limit() == old(self).spec_limit(),
            old(self).wf() ==> final(self).wf(),
            old(self).within_limit() ==> final(self).within_limit(),
    {
        match self.validate_resources(device.resources.as_slice()) {
            Ok(()) => {},
            Err(error) => {
                return Err(error);
            },
        }
        let id = device.id;
        proof {
            law_admitted_stay_compatible(self.spec_devices(), self.spec_limit(), device);
        }
        self.devices.push(device);
        Ok(id)
    }

    /// Allocates and registers a descriptor from raw resource data.
    pub fn register_device(
        &mut self,
        name: &'static str,
        resources: ResourceSet,
        capabilities: DeviceCapabilities,
    ) -> (r: AxResult<DeviceId>)
        requires
            countable(old(self).held(), old(self).spec_limit(), resources@),
        ensures
            device_registered(*old(self), *final(self), name@, resources@, capabilities, r),
            final(self).spec_limit() == old(self).spec_limit(),
            old(self).wf() ==> final(self).wf(),
            old(self).within_limit() ==> final(self).within_limit(),
    {
        match self.validate_resources(resources.as_slice()) {
            Ok(()) => {},
            Err(error) => {
                return Err(error);
            },
        }
        let id = self.allocate_id();
        let device = RegisteredDevice::new(id, name, resources, capabilities);
        proof {
            law_admitted_stay_compatible(self.spec_devices(), self.spec_limit(), device);
        }
        self.devices.push(device);
        proof {
            assert(self.devices@.drop_last() =~= old(self).devices@);
        }
        Ok(id)
    }

    /// Returns all registered device descriptors.
    pub fn devices(&self) -> (r: &[RegisteredDevice])
        ensures
            r@ == self.spec_devices(),
    {
        self.devices.as_slice()
    }

    fn conflicts_with_held(&self, resource: &Resource) -> (r: bool)
        ensures
            r == exists|b: int|
                0 <= b < self.held().len() && resource.conflicts(#[trigger] self.held()[b]),
    {
        let mut i: usize = 0;
        proof {
            assert(self.devices@.take(0) =~= Seq::<RegisteredDevice>::empty());
        }
        while i < self.devices.len()
            invariant
                i <= self.devices@.len(),
                forall|b: int|
                    0 <= b < claims(self.devices@.take(i as int)).len() ==> !resource.conflicts(
                        #[trigger] claims(self.devices@.take(i as int))[b],
                    ),
            decreases self.devices@.len() - i,
        {
            let existing = self.devices[i].resources.as_slice();
            proof {
                lemma_claims_take(self.devices@, i as int);
            }
            let ghost before = claims(self.devices@.take(i as int));
            let ghost after = claims(self.devices@.take(i + 1));
            let mut k: usize = 0;
            while k < existing.len()
                invariant
                    i < self.devices@.len(),
                    k <= existing@.len(),
                    existing@ == self.devices@[i as int].spec_resources(),
                    before == claims(self.devices@.take(i as int)),
                    after == claims(self.devices@.take(i + 1)),
                    after == before + existing@,
                    forall|b: int|
                        0 <= b < before.len() + k ==> !resource.conflicts(#[trigger] after[b]),
                decreases existing@.len() - k,
            {
                if resource.overlaps(&existing[k]) {
                    proof {
                        let b: int = before.len() + k;
                        assert(after[b] == existing@[k as int]);
                        lemma_claims_extend(self.devices@, i + 1);
                        assert(self.held()[b] == after[b]);
                    }
                    return true;
                }
                proof {
                    assert(after[before.len() + k] == existing@[k as int]);
                }
                k = k + 1;
            }
            i = i + 1;
        }
        proof {
            assert(self.devices@.take(i as int) =~= self.devices@);
        }
        false
    }

    fn held_msi_vectors(&self) -> (r: usize)
        requires
            msi_total(self.held()) <= usize::MAX,
        ensures
            r == msi_total(self.held()),
    {
        let mut used: usize = 0;
        let mut i: usize = 0;
        proof {
            assert(self.devices@.take(0) =~= Seq::<RegisteredDevice>::empty());
        }
        while i < self.devices.len()
            invariant
                i <= self.devices@.len(),
                msi_total(self.held()) <= usize::MAX,
                used == msi_total(claims(self.devices@.take(i as int))),
            decreases self.devices@.len() - i,
        {
            proof {
                lemma_claims_take(self.devices@, i as int);
                lemma_msi_total_add(
                    claims(self.devices@.take(i as int)),
                    self.devices@[i as int].spec_resources(),
                );
                lemma_claims_prefix(self.devices@, i + 1);
            }
            used = used + msi_vectors_of(self.devices[i].resources.as_slice());
            i = i + 1;
        }
        proof {
            assert(self.devices@.take(i as int) =~= self.devices@);
        }
        used
    }

    fn validate_resources(&self, resources: &[Resource]) -> (r: AxResult<()>)
        requires
            countable(self.held(), self.spec_limit(), resources@),
        ensures
            r == admission(self.held(), self.spec_limit(), resources@),
    {
        if first_malformed(resources).is_some() {
            return Err(AxError::InvalidInput);
        }
        let mut i: usize = 0;
        while i < resources.len()
            invariant
                i <= resources@.len(),
                !resource::has_malformed(resources@),
                forall|a: int, b: int|
                    0 <= a < i && 0 <= b < self.held().len() ==> !(
                    #[trigger] resources@[a]).conflicts(#[trigger] self.held()[b]),
            decreases resources@.len() - i,
        {
            if self.conflicts_with_held(&resources[i]) {
                assert(clashes(resources@, self.held()));
                return Err(AxError::AddrInUse);
            }
            i = i + 1;
        }
        assert(!clashes(resources@, self.held()));
        let mut index: usize = 0;
        while index < resources.len()
            invariant
                index <= resources@.len(),
                !resource::has_malformed(resources@),
                !clashes(resources@, self.held()),
                forall|a: int, b: int|
                    0 <= b < a < index ==> !(#[trigger] resources@[a]).conflicts(
                        #[trigger] resources@[b],
                    ),
            decreases resources@.len() - index,
        {
            let mut k: usize = 0;
            while k < index
                invariant
                    k <= index < resources@.len(),
                    !resource::has_malformed(resources@),
                    !clashes(resources@, self.held()),
                    forall|b: int|
                        0 <= b < k ==> !resources@[index as int].conflicts(
                            #[trigger] resources@[b],
                        ),
                decreases index - k,
            {
                if resources[index].overlaps(&resources[k]) {
                    assert(clashes_within(resources@));
                    return Err(AxError::AddrInUse);
                }
                k = k + 1;
            }
            index = index + 1;
        }
        assert(!clashes_within(resources@));
        if let Some(limit) = self.msi_vector_limit {
            let used = self.held_msi_vectors();
            let requested = msi_vectors_of(resources);
            if used.saturating_add(requested) > limit {
                return Err(AxError::NoMemory);
            }
        }
        Ok(())
    }
}

fn msi_vectors(resource: &Resource) -> (r: usize)
    ensures
        r == resource.msi_demand(),
{
    match resource {
        Resource::Msi { vectors } => *vectors,
        _ => 0,
    }
}

fn msi_vectors_of(resources: &[Resource]) -> (r: usize)
    requires
        msi_total(resources@) <= usize::MAX,
    ensures
        r == msi_total(resources@),
{
    let mut total: usize = 0;
    let mut i: usize = 0;
    while i < resources.len()
        invariant
            i <= resources@.len(),
            msi_total(resources@) <= usize::MAX,
            total == msi_total(resources@.take(i as int)),
        decreases resources@.len() - i,
    {
        proof {
            assert(resources@.take(i + 1).drop_last() =~= resources@.take(i as int));
            lemma_msi_prefix(resources@, i + 1);
        }
        total = total + msi_vectors(&resources[i]);
        i = i + 1;
    }
    proof {
        assert(resources@.take(i as int) =~= resources@);
    }
    total
}

proof fn lemma_claims_extend(devices: Seq<RegisteredDevice>, n: int)
    requires
        0 <= n <= devices.len(),
    ensures
        claims(devices.take(n)).len() <= claims(devices).len(),
        forall|b: int|
            0 <= b < claims(devices.take(n)).len() ==> #[trigger] claims(devices)[b] == claims(
                devices.take(n),
            )[b],
    decreases devices.len() - n,
{
    if n == devices.len() {
        assert(devices.take(n) =~= devices);
    } else {
        lemma_claims_take(devices, n);
        lemma_claims_extend(devices, n + 1);
        assert forall|b: int| 0 <= b < claims(devices.take(n)).len() implies #[trigger] claims(
            devices,
        )[b] == claims(devices.take(n))[b] by {
            assert(claims(devices.take(n + 1))[b] == claims(devices.take(n))[b]);
        }
    }
}

/// A device that was admitted conflicts with nothing: a conflict-free registry
/// stays conflict-free, and one that respects its vector limit goes on
/// respecting it.
pub proof fn law_admitted_stay_compatible(
    devices: Seq<RegisteredDevice>,
    limit: Option<usize>,
    device: RegisteredDevice,
)
    requires
        admission(claims(devices), limit, device.spec_resources()) is Ok,
    ensures
        compatible(claims(devices)) ==> compatible(claims(devices.push(device))),
        limit is Some && limit->0 < usize::MAX ==> msi_total(claims(devices.push(device)))
            <= limit->0,
{
    let held = claims(devices);
    let wanted = device.spec_resources();
    let all = claims(devices.push(device));
    assert(devices.push(device).drop_last() =~= devices);
    assert(all == held + wanted);
    lemma_msi_total_add(held, wanted);
    if compatible(held) {
        assert forall|i: int| 0 <= i < all.len() implies !(#[trigger] all[i]).is_malformed() by {
            if i < held.len() {
                assert(all[i] == held[i]);
            } else {
                assert(all[i] == wanted[i - held.len()]);
            }
        }
        assert forall|a: int, b: int| 0 <= b < a < all.len() implies !(#[trigger] all[a]).conflicts(
            #[trigger] all[b],
        ) by {
            if a < held.len() {
                assert(all[a] == held[a] && all[b] == held[b]);
            } else {
                assert(all[a] == wanted[a - held.len()]);
                if b < held.len() {
                    assert(all[b] == held[b]);
                } else {
                    assert(all[b] == wanted[b - held.len()]);
                }
            }
        }
    }
}

/// A registration that fails leaves the devices alone and uses up no identifier.
/// One that succeeds hands out the next identifier, adds one descriptor at the
/// end, made of what was asked for, and moves on to another identifier.
pub proof fn law_registration_uses_one_identifier(
    before: DeviceRegistry,
    after: DeviceRegistry,
    name: Seq<char>,
    resources: Seq<Resource>,
    capabilities: DeviceCapabilities,
    r: AxResult<DeviceId>,
)
    requires
        device_registered(before, after, name, resources, capabilities, r),
        before.spec_next_id() < u64::MAX,
    ensures
        match r {
            Ok(id) => {
                &&& id == DeviceId(before.spec_next_id())
                &&& after.spec_next_id() == before.spec_next_id() + 1
                &&& DeviceId(after.spec_next_id()) != id
                &&& exists|device: RegisteredDevice|
                    {
                        &&& after.spec_devices() == #[trigger] before.spec_devices().push(device)
                        &&& device.spec_device_id() == id
                        &&& device.spec_name() == name
                        &&& device.spec_resources() == resources
                        &&& device.spec_capabilities() == capabilities
                    }
            },
            Err(_) => {
                &&& after.spec_devices() == before.spec_devices()
                &&& after.spec_next_id() == before.spec_next_id()
            },
        },
{
    if r is Ok {
        let device = after.spec_devices().last();
        assert(after.spec_devices() =~= before.spec_devices().push(device));
    }
}

/// Successive identifiers differ until the counter is exhausted.
pub proof fn law_identifiers_differ(id: u64)
    requires
        id < u64::MAX,
    ensures
        next_after(id) > id,
{
}

/// A registry that is well-formed holds every interrupt line once at most, and
/// every port, register and MMIO address too: two claims that share one are the
/// same claim.
pub proof fn law_lines_and_addresses_are_held_once(registry: DeviceRegistry, i: int, j: int)
    requires
        registry.wf(),
        0 <= i < registry.held().len(),
        0 <= j < registry.held().len(),
        match (registry.held()[i], registry.held()[j]) {
            (Resource::Irq { line: a, .. }, Resource::Irq { line: b, .. }) => a.0 == b.0,
            (Resource::Mmio(a), Resource::Mmio(b)) => exists|addr: usize|
                a.start.0 <= addr < a.end.0 && b.start.0 <= addr && #[trigger] resource::below(
                    addr,
                    b.end.0,
                ),
            (Resource::Port(a), Resource::Port(b)) => exists|port: u16|
                a.start.0 <= port <= a.end.0 && b.start.0 <= port
                    && #[trigger] resource::within_port(port, b.end.0),
            (Resource::SysReg(a), Resource::SysReg(b)) => exists|addr: usize|
                a.start.0 <= addr <= a.end.0 && b.start.0 <= addr && #[trigger] resource::within(
                    addr,
                    b.end.0,
                ),
            _ => false,
        },
    ensures
        i == j,
{
    let held = registry.held();
    if i < j {
        resource::law_conflicts_symmetric(held[i], held[j]);
        assert(!held[j].conflicts(held[i]));
    }
    if j < i {
        assert(!held[i].conflicts(held[j]));
    }
}

/// The claims of a list of devices are the resources of these devices, and
/// nothing else.
pub proof fn law_claims_are_the_devices_resources(
    devices: Seq<RegisteredDevice>,
    claim: Resource,
)
    ensures
        claims(devices).contains(claim) <==> exists|i: int|
            0 <= i < devices.len() && (#[trigger] devices[i]).spec_resources().contains(claim),
    decreases devices.len(),
{
    if devices.len() > 0 {
        let front = devices.drop_last();
        let own = devices.last().spec_resources();
        law_claims_are_the_devices_resources(front, claim);
        let all = claims(devices);
        if all.contains(claim) {
            let k = choose|k: int| 0 <= k < all.len() && all[k] == claim;
            if k < claims(front).len() {
                assert(claims(front)[k] == claim);
                let i = choose|i: int|
                    0 <= i < front.len() && (#[trigger] front[i]).spec_resources().contains(claim);
                assert(devices[i].spec_resources().contains(claim));
            } else {
                assert(own[k - claims(front).len()] == claim);
                assert(devices[devices.len() - 1].spec_resources().contains(claim));
            }
        }
        if exists|i: int|
            0 <= i < devices.len() && (#[trigger] devices[i]).spec_resources().contains(claim) {
            let i = choose|i: int|
                0 <= i < devices.len() && (#[trigger] devices[i]).spec_resources().contains(claim);
            if i < front.len() {
                assert(front[i].spec_resources().contains(claim));
                let k = choose|k: int| 0 <= k < claims(front).len() && claims(front)[k] == claim;
                assert(all[k] == claim);
            } else {
                let k = choose|k: int| 0 <= k < own.len() && own[k] == claim;
                assert(all[claims(front).len() + k] == claim);
            }
        }
    }
}

/// Vectors are counted one by one: a vector request adds what it asks for, any
/// other resource adds nothing.
pub proof fn law_vectors_are_counted(resources: Seq<Resource>, more: Resource, vectors: usize)
    ensures
        msi_total(Seq::empty()) == 0,
        msi_total(resources.push(Resource::Msi { vectors })) == msi_total(resources) + vectors,
        !(more is Msi) ==> msi_total(resources.push(more)) == msi_total(resources),
{
    assert(resources.push(more).drop_last() =~= resources);
    assert(resources.push(Resource::Msi { vectors }).drop_last() =~= resources);
}

/// A request is admitted exactly when all that it asks for is well-formed,
/// nothing of it conflicts with what is held or with the rest of it, and the
/// vectors stay within the limit. Otherwise the first of these that fails names
/// the error.
pub proof fn law_admission(held: Seq<Resource>, limit: Option<usize>, wanted: Seq<Resource>)
    ensures
        ({
            let formed = forall|i: int|
                0 <= i < wanted.len() ==> !(#[trigger] wanted[i]).is_malformed();
            let apart = forall|i: int, k: int|
                0 <= i < wanted.len() && 0 <= k < held.len() ==> !(#[trigger] wanted[i]).conflicts(
                    #[trigger] held[k],
                );
            let distinct = forall|i: int, k: int|
                0 <= i < wanted.len() && 0 <= k < wanted.len() && i != k ==> !(
                #[trigger] wanted[i]).conflicts(#[trigger] wanted[k]);
            let total = msi_total(held) + msi_total(wanted);
            let limited = limit is None || limit->0 == usize::MAX || total <= limit->0;
            let r = admission(held, limit, wanted);
            &&& r is Ok <==> formed && apart && distinct && limited
            &&& r == Err::<(), AxError>(AxError::InvalidInput) <==> !formed
            &&& r == Err::<(), AxError>(AxError::AddrInUse) <==> formed && !(apart && distinct)
            &&& r == Err::<(), AxError>(AxError::NoMemory) <==> formed && apart && distinct
                && !limited
        }),
{
    let distinct = forall|i: int, k: int|
        0 <= i < wanted.len() && 0 <= k < wanted.len() && i != k ==> !(
        #[trigger] wanted[i]).conflicts(#[trigger] wanted[k]);
    if !clashes_within(wanted) {
        assert forall|i: int, k: int|
            0 <= i < wanted.len() && 0 <= k < wanted.len() && i != k implies !(
        #[trigger] wanted[i]).conflicts(#[trigger] wanted[k]) by {
            resource::law_conflicts_symmetric(wanted[i], wanted[k]);
        }
    } else if distinct {
        let (a, b) = choose|a: int, b: int|
            0 <= b < a < wanted.len() && (#[trigger] wanted[a]).conflicts(#[trigger] wanted[b]);
        assert(!wanted[a].conflicts(wanted[b]));
    }
}

/// Identifiers are handed out in steps of one, and the last one is handed out over
/// and over.
pub proof fn law_identifiers_count_up(id: u64)
    ensures
        id < u64::MAX ==> next_after(id) == id + 1,
        next_after(u64::MAX) == u64::MAX,
{
}

} // verus!
