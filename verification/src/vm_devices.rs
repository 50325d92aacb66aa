//! The devices of one VM.

use crate::access;
use crate::access::{AccessRecord, DeviceBuses, HandledAccess};
use crate::bus::{BusAccess, BusAddress, BusOperation, BusResponse};
use crate::device;
use crate::device::AxEmuDevices;
use crate::device_lists;
use crate::device_lists::{DeviceLists, IvcState};
use crate::device_ops;
use crate::device_ops::{MmioDevice, PollableDeviceOps, PortDevice, SysRegDevice};
use crate::error;
use crate::error::{AxError, AxResult};
use crate::factory::{
    DeviceBuildContext, DeviceBundle, DeviceFactoryRegistry, DeviceRegistration,
};
use crate::lifecycle::DeviceLifecycle;
use crate::range::{GuestPhysAddrRange, PortRange, SysRegAddrRange};
use crate::range_alloc;
use crate::range_alloc::RangeAllocator;
use crate::shared::Shared;
use crate::types::{AccessWidth, EmulatedDeviceConfig, GuestPhysAddr, Port, SysRegAddr};
use core::ops::Range;
use vstd::prelude::*;

verus! {

/// `ax_memory_addr::is_aligned_4k` tells whether the address is a multiple of
/// 4096.
pub assume_specification[ ax_memory_addr::is_aligned_4k ](addr: usize) -> (r: bool)
    ensures
        r == (addr % 4096 == 0),
;

/// The devices that a VM is configured with.
pub struct AxVmDeviceConfig {
    /// Configurations of the emulated devices.
    pub emu_configs: Vec<EmulatedDeviceConfig>,
}

impl AxVmDeviceConfig {
    /// Creates a configuration of the given devices.
    pub fn new(emu_configs: Vec<EmulatedDeviceConfig>) -> (r: Self)
        ensures
            r.emu_configs@ == emu_configs@,
    {
        AxVmDeviceConfig { emu_configs }
    }
}

/// The devices of a VM.
pub struct AxVmDevices {
    emu_mmio_devices: AxEmuDevices<GuestPhysAddrRange>,
    emu_sys_reg_devices: AxEmuDevices<SysRegAddrRange>,
    emu_port_devices: AxEmuDevices<PortRange>,
    pollable_devices: Vec<Shared<dyn PollableDeviceOps>>,
    lifecycle_devices: Vec<Shared<dyn DeviceLifecycle>>,
    ivc_channel: Option<RangeAllocator>,
}

impl View for AxVmDevices {
    type V = DeviceLists;

    closed spec fn view(&self) -> DeviceLists {
        DeviceLists {
            mmio: self.emu_mmio_devices@,
            port: self.emu_port_devices@,
            sysreg: self.emu_sys_reg_devices@,
            pollable: self.pollable_devices@,
            lifecycle: self.lifecycle_devices@,
            ivc: match self.ivc_channel {
                Some(allocator) => Some(
                    IvcState { pool: allocator.pool(), allocated: allocator.allocated() },
                ),
                None => None,
            },
        }
    }
}

fn expect_read_response(response: BusResponse) -> (r: AxResult<usize>)
    ensures
        r == (match response {
            BusResponse::Read { value } => Ok::<usize, AxError>(value),
            BusResponse::WriteComplete => Err(AxError::InvalidInput),
        }),
{
    match response {
        BusResponse::Read { value } => Ok(value),
        BusResponse::WriteComplete => Err(AxError::InvalidInput),
    }
}

fn expect_write_response(response: BusResponse) -> (r: AxResult<()>)
    ensures
        r == (match response {
            BusResponse::WriteComplete => Ok::<(), AxError>(()),
            BusResponse::Read { .. } => Err(AxError::InvalidInput),
        }),
{
    match response {
        BusResponse::WriteComplete => Ok(()),
        BusResponse::Read { .. } => Err(AxError::InvalidInput),
    }
}

fn answer_read(answer: AxResult<usize>) -> (r: AxResult<BusResponse>)
    ensures
        r == device_ops::read_response(answer),
{
    match answer {
        Ok(value) => Ok(BusResponse::Read { value }),
        Err(error) => Err(error),
    }
}

fn answer_write(answer: AxResult<()>) -> (r: AxResult<BusResponse>)
    ensures
        r == device_ops::write_response(answer),
{
    match answer {
        Ok(()) => Ok(BusResponse::WriteComplete),
        Err(error) => Err(error),
    }
}

fn finds_repetition<T: ?Sized, F: Fn(&Shared<T>, &Shared<T>) -> bool>(
    wanted: &Vec<Shared<T>>,
    taken: &Vec<Shared<T>>,
    same: F,
) -> (r: bool)
    requires
        forall|a: &Shared<T>, b: &Shared<T>| #[trigger] call_requires(same, (a, b)),
    ensures
        r ==> device_lists::found_same(wanted@, taken@, same),
        !r ==> device_lists::told_apart(wanted@, taken@, same),
{
    let ghost all = taken@ + wanted@;
    let ghost total: int = taken@.len() as int;
    let mut j: usize = 0;
    while j < wanted.len()
        invariant
            j <= wanted@.len(),
            all == taken@ + wanted@,
            total == taken@.len(),
            forall|a: &Shared<T>, b: &Shared<T>| #[trigger] call_requires(same, (a, b)),
            forall|i: int, k: int|
                #![trigger all[i], all[k]]
                0 <= i < k < total + j && total <= k ==> call_ensures(
                    same,
                    (&all[i], &all[k]),
                    false,
                ),
        decreases wanted@.len() - j,
    {
        assert(all[total + j] == wanted@[j as int]);
        let mut i: usize = 0;
        while i < taken.len()
            invariant
                i <= taken@.len(),
                j < wanted@.len(),
                all == taken@ + wanted@,
                total == taken@.len(),
                all[total + j] == wanted@[j as int],
                forall|a: &Shared<T>, b: &Shared<T>| #[trigger] call_requires(same, (a, b)),
                forall|k: int|
                    #![trigger all[k]]
                    0 <= k < i ==> call_ensures(same, (&all[k], &all[total + j]), false),
            decreases taken@.len() - i,
        {
            assert(all[i as int] == taken@[i as int]);
            if same(&taken[i], &wanted[j]) {
                return true;
            }
            i = i + 1;
        }
        let mut i: usize = 0;
        while i < j
            invariant
                i <= j < wanted@.len(),
                all == taken@ + wanted@,
                total == taken@.len(),
                all[total + j] == wanted@[j as int],
                forall|a: &Shared<T>, b: &Shared<T>| #[trigger] call_requires(same, (a, b)),
                forall|k: int|
                    #![trigger all[k]]
                    0 <= k < total + i ==> call_ensures(same, (&all[k], &all[total + j]), false),
            decreases j - i,
        {
            assert(all[total + i] == wanted@[i as int]);
            if same(&wanted[i], &wanted[j]) {
                return true;
            }
            i = i + 1;
        }
        j = j + 1;
    }
    false
}

proof fn lemma_one_capability(lists: DeviceLists, bundle: DeviceBundle)
    requires
        bundle.pollable@.len() == 0,
        bundle.lifecycle@.len() == 0,
        bundle.ivc_channels@.len() == 0,
        bundle.mmio@.len() + bundle.port@.len() + bundle.sysreg@.len() == 1,
    ensures
        lists.verdict(bundle, false) == (if bundle.mmio@.len() == 1 {
            device::placement(device::ranges(bundle.mmio@)[0], device::ranges(lists.mmio))
        } else if bundle.port@.len() == 1 {
            device::placement(device::ranges(bundle.port@)[0], device::ranges(lists.port))
        } else {
            device::placement(device::ranges(bundle.sysreg@)[0], device::ranges(lists.sysreg))
        }),
{
    device::lemma_small_groups(device::ranges(bundle.mmio@), device::ranges(lists.mmio));
    device::lemma_small_groups(device::ranges(bundle.port@), device::ranges(lists.port));
    device::lemma_small_groups(device::ranges(bundle.sysreg@), device::ranges(lists.sysreg));
    error::lemma_plain_success(lists.verdict(bundle, false));
    error::lemma_plain_success(
        device::placement(device::ranges(bundle.mmio@)[0], device::ranges(lists.mmio)),
    );
    error::lemma_plain_success(
        device::placement(device::ranges(bundle.port@)[0], device::ranges(lists.port)),
    );
    error::lemma_plain_success(
        device::placement(device::ranges(bundle.sysreg@)[0], device::ranges(lists.sysreg)),
    );
}

impl AxVmDevices {
    /// The devices are sound.
    pub open spec fn wf(&self) -> bool {
        self@.sound()
    }

    fn empty() -> (r: Self)
        ensures
            r@ == DeviceLists::empty(),
            r.wf(),
    {
        AxVmDevices {
            emu_mmio_devices: AxEmuDevices::new(),
            emu_sys_reg_devices: AxEmuDevices::new(),
            emu_port_devices: AxEmuDevices::new(),
            pollable_devices: Vec::new(),
            lifecycle_devices: Vec::new(),
            ivc_channel: None,
        }
    }

    /// Creates a VM without devices.
    ///
    /// Configured devices are built through [`Self::build_with_factories`], so
    /// a configuration that names one is not supported here.
    pub fn new(config: AxVmDeviceConfig) -> (r: AxResult<Self>)
        ensures
            config.emu_configs@.len() > 0 ==> r == Err::<Self, AxError>(AxError::Unsupported),
            config.emu_configs@.len() == 0 ==> r is Ok && r->Ok_0.wf() && r->Ok_0@
                == DeviceLists::empty(),
    {
        if config.emu_configs.len() != 0 {
            return Err(AxError::Unsupported);
        }
        Ok(Self::empty())
    }

    /// Builds the configured devices with the registered factories, in order,
    /// up to the first that fails.
    pub fn build_with_factories(
        config: AxVmDeviceConfig,
        factories: &DeviceFactoryRegistry,
        context: &DeviceBuildContext<'_>,
    ) -> (r: AxResult<Self>)
        ensures
            match r {
                Ok(devices) => {
                    &&& devices.wf()
                    &&& DeviceLists::empty().all_built(
                        devices@,
                        config.emu_configs@,
                        factories.spec_factories(),
                        context.spec_resolver(),
                    )
                },
                Err(error) => exists|k: int|
                    #[trigger] DeviceLists::empty().built_until(
                        k,
                        config.emu_configs@,
                        factories.spec_factories(),
                        context.spec_resolver(),
                        error,
                    ),
            },
    {
        let mut this = Self::empty();
        let configs = config.emu_configs;
        let mut i: usize = 0;
        proof {
            assert(configs@.take(0) =~= Seq::<EmulatedDeviceConfig>::empty());
        }
        while i < configs.len()
            invariant
                i <= configs@.len(),
                configs == config.emu_configs,
                this.wf(),
                DeviceLists::empty().all_built(
                    this@,
                    configs@.take(i as int),
                    factories.spec_factories(),
                    context.spec_resolver(),
                ),
            decreases configs@.len() - i,
        {
            let ghost before = this@;
            match this.register_factory_device(&configs[i], factories, context) {
                Ok(()) => {},
                Err(error) => {
                    proof {
                        assert(DeviceLists::empty().built_until(
                            i as int,
                            configs@,
                            factories.spec_factories(),
                            context.spec_resolver(),
                            error,
                        ));
                    }
                    return Err(error);
                },
            }
            proof {
                let taken = configs@.take(i + 1);
                assert(taken.drop_last() =~= configs@.take(i as int));
                assert(before.built(
                    this@,
                    taken.last(),
                    factories.spec_factories(),
                    context.spec_resolver(),
                    Ok(()),
                ));
                assert(DeviceLists::empty().all_built(
                    before,
                    taken.drop_last(),
                    factories.spec_factories(),
                    context.spec_resolver(),
                ));
            }
            i = i + 1;
        }
        proof {
            assert(configs@.take(i as int) =~= configs@);
        }
        Ok(this)
    }

    /// Builds one device with its factory and registers it. Nothing changes if
    /// either step fails.
    pub fn register_factory_device(
        &mut self,
        config: &EmulatedDeviceConfig,
        factories: &DeviceFactoryRegistry,
        context: &DeviceBuildContext<'_>,
    ) -> (r: AxResult<()>)
        ensures
            old(self)@.built(
                final(self)@,
                *config,
                factories.spec_factories(),
                context.spec_resolver(),
                r,
            ),
            r is Err ==> *final(self) == *old(self),
            old(self).wf() ==> final(self).wf(),
    {
        match factories.build(config, context) {
            Ok(bundle) => self.register_bundle(bundle),
            Err(error) => Err(error),
        }
    }

    /// Hands out a piece of the communication range: the lowest one of the
    /// given size, which has to be a positive multiple of the page size.
    pub fn alloc_ivc_channel(&mut self, size: usize) -> (r: AxResult<GuestPhysAddr>)
        requires
            old(self).wf(),
        ensures
            device_lists::channel_allocated(old(self)@.ivc, final(self)@.ivc, size, r),
            final(self).wf(),
            final(self)@ == (DeviceLists { ivc: final(self)@.ivc, ..old(self)@ }),
            size == 0 || size % 4096 != 0 || old(self)@.ivc is None ==> {
                &&& r == Err::<GuestPhysAddr, AxError>(AxError::InvalidInput)
                &&& final(self)@.ivc == old(self)@.ivc
            },
            size > 0 && size % 4096 == 0 && old(self)@.ivc is Some ==> {
                let before = old(self)@.ivc->0;
                let after = final(self)@.ivc->0;
                &&& final(self)@.ivc is Some
                &&& after.pool == before.pool
                &&& match r {
                    Ok(addr) => {
                        &&& addr.0 + size <= usize::MAX
                        &&& range_alloc::allocated_lowest(
                            before.pool,
                            before.allocated,
                            after.allocated,
                            size,
                            Some((addr.0..(addr.0 + size) as usize)),
                        )
                    },
                    Err(error) => {
                        &&& error == AxError::NoMemory
                        &&& range_alloc::allocated_lowest(
                            before.pool,
                            before.allocated,
                            after.allocated,
                            size,
                            None,
                        )
                    },
                }
            },
    {
        if size == 0 {
            return Err(AxError::InvalidInput);
        }
        if !ax_memory_addr::is_aligned_4k(size) {
            return Err(AxError::InvalidInput);
        }
        match &mut self.ivc_channel {
            Some(allocator) => match allocator.allocate_range(size) {
                Some(range) => Ok(GuestPhysAddr::from_usize(range.start)),
                None => Err(AxError::NoMemory),
            },
            None => Err(AxError::InvalidInput),
        }
    }

    /// Takes back a piece of the communication range.
    pub fn release_ivc_channel(&mut self, addr: GuestPhysAddr, size: usize) -> (r: AxResult<()>)
        requires
            old(self).wf(),
            size > 0 && size % 4096 == 0 && old(self)@.ivc is Some ==> addr.0 + size
                <= usize::MAX,
        ensures
            device_lists::channel_released(old(self)@.ivc, final(self)@.ivc, addr, size, r),
            final(self).wf(),
            final(self)@ == (DeviceLists { ivc: final(self)@.ivc, ..old(self)@ }),
            size == 0 || size % 4096 != 0 || old(self)@.ivc is None ==> {
                &&& r == Err::<(), AxError>(AxError::InvalidInput)
                &&& final(self)@.ivc == old(self)@.ivc
            },
            size > 0 && size % 4096 == 0 && old(self)@.ivc is Some ==> {
                let before = old(self)@.ivc->0;
                let after = final(self)@.ivc->0;
                &&& final(self)@.ivc is Some
                &&& after.pool == before.pool
                &&& range_alloc::given_back(
                    before.allocated,
                    after.allocated,
                    (addr.0..(addr.0 + size) as usize),
                    r is Ok,
                )
                &&& r is Err ==> r == Err::<(), AxError>(AxError::InvalidInput)
            },
    {
        if size == 0 {
            return Err(AxError::InvalidInput);
        }
        if !ax_memory_addr::is_aligned_4k(size) {
            return Err(AxError::InvalidInput);
        }
        match &mut self.ivc_channel {
            Some(allocator) => {
                let range: Range<usize> = Range {
                    start: addr.as_usize(),
                    end: addr.as_usize() + size,
                };
                if allocator.free_range(range) {
                    Ok(())
                } else {
                    Err(AxError::InvalidInput)
                }
            },
            None => Err(AxError::InvalidInput),
        }
    }

    /// Registers a bundle after validating all of its capabilities. Nothing
    /// changes if one of them is refused.
    pub fn register_bundle(&mut self, bundle: DeviceBundle) -> (r: AxResult<()>)
        ensures
            old(self)@.joined(final(self)@, bundle, r),
            r is Err ==> *final(self) == *old(self),
            old(self).wf() ==> final(self).wf(),
    {
        let repeated = finds_repetition(
            &bundle.pollable,
            &self.pollable_devices,
            Shared::<dyn PollableDeviceOps>::is_same,
        ) || finds_repetition(
            &bundle.lifecycle,
            &self.lifecycle_devices,
            Shared::<dyn DeviceLifecycle>::is_same,
        );
        self.register_compared(bundle, repeated)
    }

    /// Registers a bundle of which it is known whether one of its polled devices
    /// or lifecycle hooks is a repetition: is registered already or stands in
    /// the bundle twice.
    pub fn register_compared(&mut self, bundle: DeviceBundle, repeated: bool) -> (r: AxResult<()>)
        ensures
            r == old(self)@.verdict(bundle, repeated),
            final(self)@ == old(self)@.after_bundle(bundle, repeated),
            r is Err ==> *final(self) == *old(self),
            old(self).wf() ==> final(self).wf(),
    {
        match self.emu_mmio_devices.validate_devices(&bundle.mmio) {
            Ok(()) => {},
            Err(error) => {
                return Err(error);
            },
        }
        match self.emu_port_devices.validate_devices(&bundle.port) {
            Ok(()) => {},
            Err(error) => {
                return Err(error);
            },
        }
        match self.emu_sys_reg_devices.validate_devices(&bundle.sysreg) {
            Ok(()) => {},
            Err(error) => {
                return Err(error);
            },
        }
        match self.validate_ivc_channels(&bundle.ivc_channels) {
            Ok(()) => {},
            Err(error) => {
                return Err(error);
            },
        }
        if repeated {
            return Err(AxError::AlreadyExists);
        }
        proof {
            if self.wf() {
                device_lists::law_accepted_bundle_stays_sound(self@, bundle, repeated);
            }
        }
        let DeviceBundle { mmio, port, sysreg, pollable, lifecycle, ivc_channels } = bundle;
        let mut pollable = pollable;
        let mut lifecycle = lifecycle;
        self.emu_mmio_devices.commit_devices(mmio);
        self.emu_port_devices.commit_devices(port);
        self.emu_sys_reg_devices.commit_devices(sysreg);
        self.pollable_devices.append(&mut pollable);
        self.lifecycle_devices.append(&mut lifecycle);
        if ivc_channels.len() > 0 {
            let pool: Range<usize> = Range { start: ivc_channels[0].start, end: ivc_channels[0].end };
            self.ivc_channel = Some(RangeAllocator::new(pool));
        }
        Ok(())
    }

    fn validate_ivc_channels(&self, channels: &Vec<Range<usize>>) -> (r: AxResult<()>)
        ensures
            r == device_lists::ivc_verdict(self@.ivc is Some, channels@),
    {
        if channels.len() == 0 {
            return Ok(());
        }
        if self.ivc_channel.is_some() || channels.len() > 1 {
            return Err(AxError::AlreadyExists);
        }
        if channels[0].start >= channels[0].end {
            return Err(AxError::InvalidInput);
        }
        Ok(())
    }

    /// Adds an MMIO device.
    pub fn add_mmio_dev(&mut self, dev: MmioDevice) -> (r: AxResult<()>)
        ensures
            r == device::placement(dev.obj().spec_address_range(), device::ranges(old(self)@.mmio)),
            r is Ok ==> final(self)@ == (DeviceLists {
                mmio: old(self)@.mmio.push(dev),
                ..old(self)@
            }),
            r is Err ==> *final(self) == *old(self),
            old(self).wf() ==> final(self).wf(),
    {
        let bundle = DeviceBundle::from_registration(DeviceRegistration::Mmio(dev));
        proof {
            lemma_one_capability(self@, bundle);
            assert(bundle.mmio@ =~= seq![dev]);
            assert(device::ranges(bundle.mmio@) =~= seq![dev.obj().spec_address_range()]);
            assert(self@.with_bundle(bundle) =~= (DeviceLists {
                mmio: self@.mmio.push(dev),
                ..self@
            }));
        }
        self.register_bundle(bundle)
    }

    /// Adds a system register device.
    pub fn add_sys_reg_dev(&mut self, dev: SysRegDevice) -> (r: AxResult<()>)
        ensures
            r == device::placement(
                dev.obj().spec_address_range(),
                device::ranges(old(self)@.sysreg),
            ),
            r is Ok ==> final(self)@ == (DeviceLists {
                sysreg: old(self)@.sysreg.push(dev),
                ..old(self)@
            }),
            r is Err ==> *final(self) == *old(self),
            old(self).wf() ==> final(self).wf(),
    {
        let bundle = DeviceBundle::from_registration(DeviceRegistration::SysReg(dev));
        proof {
            lemma_one_capability(self@, bundle);
            assert(bundle.sysreg@ =~= seq![dev]);
            assert(device::ranges(bundle.sysreg@) =~= seq![dev.obj().spec_address_range()]);
            assert(self@.with_bundle(bundle) =~= (DeviceLists {
                sysreg: self@.sysreg.push(dev),
                ..self@
            }));
        }
        self.register_bundle(bundle)
    }

    /// Adds a port device.
    pub fn add_port_dev(&mut self, dev: PortDevice) -> (r: AxResult<()>)
        ensures
            r == device::placement(dev.obj().spec_address_range(), device::ranges(old(self)@.port)),
            r is Ok ==> final(self)@ == (DeviceLists {
                port: old(self)@.port.push(dev),
                ..old(self)@
            }),
            r is Err ==> *final(self) == *old(self),
            old(self).wf() ==> final(self).wf(),
    {
        let bundle = DeviceBundle::from_registration(DeviceRegistration::Port(dev));
        proof {
            lemma_one_capability(self@, bundle);
            assert(bundle.port@ =~= seq![dev]);
            assert(device::ranges(bundle.port@) =~= seq![dev.obj().spec_address_range()]);
            assert(self@.with_bundle(bundle) =~= (DeviceLists {
                port: self@.port.push(dev),
                ..self@
            }));
        }
        self.register_bundle(bundle)
    }

    /// Iterates over the MMIO devices.
    pub fn iter_mmio_dev(&self) -> (r: core::slice::Iter<'_, MmioDevice>)
        ensures
            vstd::std_specs::iter::IteratorSpec::remaining(&r).unref() == self@.mmio,
    {
        self.emu_mmio_devices.iter()
    }

    /// Iterates over the system register devices.
    pub fn iter_sys_reg_dev(&self) -> (r: core::slice::Iter<'_, SysRegDevice>)
        ensures
            vstd::std_specs::iter::IteratorSpec::remaining(&r).unref() == self@.sysreg,
    {
        self.emu_sys_reg_devices.iter()
    }

    /// Iterates over the port devices.
    pub fn iter_port_dev(&self) -> (r: core::slice::Iter<'_, PortDevice>)
        ensures
            vstd::std_specs::iter::IteratorSpec::remaining(&r).unref() == self@.port,
    {
        self.emu_port_devices.iter()
    }

    /// Iterates over the devices that require periodic polling.
    pub fn iter_pollable_dev(&self) -> (r: core::slice::Iter<'_, Shared<dyn PollableDeviceOps>>)
        ensures
            vstd::std_specs::iter::IteratorSpec::remaining(&r).unref() == self@.pollable,
    {
        self.pollable_devices.as_slice().iter()
    }

    /// Returns the devices that require periodic polling.
    pub(crate) fn pollable_devices(&self) -> (r: &[Shared<dyn PollableDeviceOps>])
        ensures
            r@ == self@.pollable,
    {
        self.pollable_devices.as_slice()
    }

    /// Iterates over the registered lifecycle capabilities.
    pub fn iter_lifecycle_dev(&self) -> (r: core::slice::Iter<'_, Shared<dyn DeviceLifecycle>>)
        ensures
            vstd::std_specs::iter::IteratorSpec::remaining(&r).unref() == self@.lifecycle,
    {
        self.lifecycle_devices.as_slice().iter()
    }

    /// Resets the devices that have lifecycle hooks, in registration order, up
    /// to the first that fails.
    pub fn reset_devices(&self) -> (r: AxResult<()>)
        ensures
            device_lists::reset_run(self@.lifecycle, r),
    {
        let ghost devices = self@.lifecycle;
        let mut i: usize = 0;
        while i < self.lifecycle_devices.len()
            invariant
                i <= devices.len(),
                devices == self@.lifecycle,
                forall|j: int|
                    0 <= j < i ==> (#[trigger] devices[j]).obj().reset_outcome(Ok(())),
            decreases devices.len() - i,
        {
            let outcome = self.lifecycle_devices[i].get().reset();
            proof {
                error::lemma_plain_success(outcome);
            }
            if let Err(error) = outcome {
                proof {
                    let fails = |k: int, error: AxError|
                        devices[k].obj().reset_outcome(Err(error));
                    assert(fails(i as int, error));
                }
                return Err(error);
            }
            i = i + 1;
        }
        Ok(())
    }

    /// Suspends the devices that have lifecycle hooks, in registration order,
    /// up to the first that fails.
    pub fn suspend_devices(&self) -> (r: AxResult<()>)
        ensures
            device_lists::suspend_run(self@.lifecycle, r),
    {
        let ghost devices = self@.lifecycle;
        let mut i: usize = 0;
        while i < self.lifecycle_devices.len()
            invariant
                i <= devices.len(),
                devices == self@.lifecycle,
                forall|j: int|
                    0 <= j < i ==> (#[trigger] devices[j]).obj().suspend_outcome(Ok(())),
            decreases devices.len() - i,
        {
            let outcome = self.lifecycle_devices[i].get().suspend();
            proof {
                error::lemma_plain_success(outcome);
            }
            if let Err(error) = outcome {
                proof {
                    let fails = |k: int, error: AxError|
                        devices[k].obj().suspend_outcome(Err(error));
                    assert(fails(i as int, error));
                }
                return Err(error);
            }
            i = i + 1;
        }
        Ok(())
    }

    /// Resumes the devices that have lifecycle hooks, in reverse registration
    /// order, up to the first that fails.
    pub fn resume_devices(&self) -> (r: AxResult<()>)
        ensures
            device_lists::resume_run(self@.lifecycle.reverse(), r),
    {
        let ghost devices = self@.lifecycle.reverse();
        let total: usize = self.lifecycle_devices.len();
        let mut i: usize = 0;
        while i < total
            invariant
                i <= total == devices.len(),
                devices == self@.lifecycle.reverse(),
                forall|j: int|
                    0 <= j < i ==> (#[trigger] devices[j]).obj().resume_outcome(Ok(())),
            decreases total - i,
        {
            assert(devices[i as int] == self@.lifecycle[total - 1 - i]);
            let outcome = self.lifecycle_devices[total - 1 - i].get().resume();
            proof {
                error::lemma_plain_success(outcome);
            }
            if let Err(error) = outcome {
                proof {
                    let fails = |k: int, error: AxError|
                        devices[k].obj().resume_outcome(Err(error));
                    assert(fails(i as int, error));
                }
                return Err(error);
            }
            i = i + 1;
        }
        Ok(())
    }

    /// Dispatches a normalized bus transaction.
    pub fn handle_bus_access(&self, access: BusAccess) -> (r: AxResult<BusResponse>)
        ensures
            device_ops::access_outcome(self@.mmio, self@.port, self@.sysreg, access, r),
            exists|after: Seq<HandledAccess>|
                #[trigger] access::recorded(
                    self@.mmio,
                    self@.port,
                    self@.sysreg,
                    access,
                    Seq::empty(),
                    after,
                    r,
                ),
    {
        access::handle(self, access)
    }

    /// Handles a guest read of an MMIO address.
    pub fn handle_mmio_read(&self, addr: GuestPhysAddr, width: AccessWidth) -> (r: AxResult<usize>)
        ensures
            device_ops::read_through(self@.mmio, addr, width, r),
    {
        match self.handle_bus_access(BusAccess::read(BusAddress::Mmio(addr), width)) {
            Ok(response) => expect_read_response(response),
            Err(error) => Err(error),
        }
    }

    /// Handles a guest write to an MMIO address.
    pub fn handle_mmio_write(&self, addr: GuestPhysAddr, width: AccessWidth, val: usize) -> (r:
        AxResult<()>)
        ensures
            device_ops::write_through(self@.mmio, addr, width, val, r),
    {
        let answer = self.handle_bus_access(BusAccess::write(BusAddress::Mmio(addr), width, val));
        proof {
            let direct = choose|d: AxResult<()>|
                #[trigger] device_ops::write_through(self@.mmio, addr, width, val, d) && answer
                    == device_ops::write_response(d);
            error::lemma_plain_success(direct);
        }
        match answer {
            Ok(response) => expect_write_response(response),
            Err(error) => Err(error),
        }
    }

    /// Handles a guest read of a system register.
    pub fn handle_sys_reg_read(&self, addr: SysRegAddr, width: AccessWidth) -> (r: AxResult<usize>)
        ensures
            device_ops::read_through(self@.sysreg, addr, width, r),
    {
        match self.handle_bus_access(BusAccess::read(BusAddress::SysReg(addr), width)) {
            Ok(response) => expect_read_response(response),
            Err(error) => Err(error),
        }
    }

    /// Handles a guest write to a system register.
    pub fn handle_sys_reg_write(&self, addr: SysRegAddr, width: AccessWidth, val: usize) -> (r:
        AxResult<()>)
        ensures
            device_ops::write_through(self@.sysreg, addr, width, val, r),
    {
        let answer = self.handle_bus_access(BusAccess::write(BusAddress::SysReg(addr), width, val));
        proof {
            let direct = choose|d: AxResult<()>|
                #[trigger] device_ops::write_through(self@.sysreg, addr, width, val, d) && answer
                    == device_ops::write_response(d);
            error::lemma_plain_success(direct);
        }
        match answer {
            Ok(response) => expect_write_response(response),
            Err(error) => Err(error),
        }
    }

    /// Handles a guest read of a port.
    pub fn handle_port_read(&self, port: Port, width: AccessWidth) -> (r: AxResult<usize>)
        ensures
            device_ops::read_through(self@.port, port, width, r),
    {
        match self.handle_bus_access(BusAccess::read(BusAddress::Port(port), width)) {
            Ok(response) => expect_read_response(response),
            Err(error) => Err(error),
        }
    }

    /// Handles a guest write to a port.
    pub fn handle_port_write(&self, port: Port, width: AccessWidth, val: usize) -> (r: AxResult<()>)
        ensures
            device_ops::write_through(self@.port, port, width, val, r),
    {
        let answer = self.handle_bus_access(BusAccess::write(BusAddress::Port(port), width, val));
        proof {
            let direct = choose|d: AxResult<()>|
                #[trigger] device_ops::write_through(self@.port, port, width, val, d) && answer
                    == device_ops::write_response(d);
            error::lemma_plain_success(direct);
        }
        match answer {
            Ok(response) => expect_write_response(response),
            Err(error) => Err(error),
        }
    }
}

impl DeviceBuses for AxVmDevices {
    closed spec fn on_mmio(&self) -> Seq<MmioDevice> {
        self@.mmio
    }

    closed spec fn on_port(&self) -> Seq<PortDevice> {
        self@.port
    }

    closed spec fn on_sysreg(&self) -> Seq<SysRegDevice> {
        self@.sysreg
    }

    fn handle_recorded(&self, access: BusAccess, record: &mut AccessRecord) -> (r: AxResult<
        BusResponse,
    >)
    {
        match (access.address, access.operation) {
            (BusAddress::Mmio(addr), BusOperation::Read) => answer_read(
                self.emu_mmio_devices.dispatch_read(addr, access.width, record),
            ),
            (BusAddress::Mmio(addr), BusOperation::Write { value }) => answer_write(
                self.emu_mmio_devices.dispatch_write(addr, access.width, value, record),
            ),
            (BusAddress::Port(port), BusOperation::Read) => answer_read(
                self.emu_port_devices.dispatch_read(port, access.width, record),
            ),
            (BusAddress::Port(port), BusOperation::Write { value }) => answer_write(
                self.emu_port_devices.dispatch_write(port, access.width, value, record),
            ),
            (BusAddress::SysReg(addr), BusOperation::Read) => answer_read(
                self.emu_sys_reg_devices.dispatch_read(addr, access.width, record),
            ),
            (BusAddress::SysReg(addr), BusOperation::Write { value }) => answer_write(
                self.emu_sys_reg_devices.dispatch_write(addr, access.width, value, record),
            ),
            (BusAddress::PciConfig { .. }, _) => Err(AxError::Unsupported),
        }
    }
}

} // verus!
