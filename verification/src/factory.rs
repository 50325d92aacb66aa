//! Device bundles and the factories that build them.

use crate::device_ops::{MmioDevice, PollableDeviceOps, PortDevice, SysRegDevice};
use crate::error::{AxError, AxResult};
use crate::irq::line::{IrqLine, IrqResolver};
use crate::lifecycle::DeviceLifecycle;
use crate::shared::{Borrowed, Shared};
use crate::types::{
    DeviceIrqConfig, EmulatedDeviceConfig, EmulatedDeviceType, InterruptTriggerMode,
};
use core::ops::Range;
use vstd::prelude::*;

verus! {

/// One capability that a device registers.
pub enum DeviceRegistration {
    /// The device answers MMIO accesses.
    Mmio(MmioDevice),
    /// The device answers port accesses.
    Port(PortDevice),
    /// The device answers system register accesses.
    SysReg(SysRegDevice),
    /// The device has to be polled.
    Pollable(Shared<dyn PollableDeviceOps>),
    /// The device has lifecycle hooks.
    Lifecycle(Shared<dyn DeviceLifecycle>),
    /// The device offers an inter-VM communication range.
    IvcChannel(Range<usize>),
}

/// The capabilities of one device, registered together.
pub struct DeviceBundle {
    /// MMIO capabilities.
    pub mmio: Vec<MmioDevice>,
    /// Port capabilities.
    pub port: Vec<PortDevice>,
    /// System register capabilities.
    pub sysreg: Vec<SysRegDevice>,
    /// Polling capabilities.
    pub pollable: Vec<Shared<dyn PollableDeviceOps>>,
    /// Lifecycle capabilities.
    pub lifecycle: Vec<Shared<dyn DeviceLifecycle>>,
    /// Inter-VM communication ranges.
    pub ivc_channels: Vec<Range<usize>>,
}

impl DeviceBundle {
    /// Whether `self` is `before` with one more capability.
    pub open spec fn extends(&self, before: DeviceBundle, registration: DeviceRegistration) -> bool {
        &&& self.mmio@ == (match registration {
            DeviceRegistration::Mmio(device) => before.mmio@.push(device),
            _ => before.mmio@,
        })
        &&& self.port@ == (match registration {
            DeviceRegistration::Port(device) => before.port@.push(device),
            _ => before.port@,
        })
        &&& self.sysreg@ == (match registration {
            DeviceRegistration::SysReg(device) => before.sysreg@.push(device),
            _ => before.sysreg@,
        })
        &&& self.pollable@ == (match registration {
            DeviceRegistration::Pollable(device) => before.pollable@.push(device),
            _ => before.pollable@,
        })
        &&& self.lifecycle@ == (match registration {
            DeviceRegistration::Lifecycle(device) => before.lifecycle@.push(device),
            _ => before.lifecycle@,
        })
        &&& self.ivc_channels@ == (match registration {
            DeviceRegistration::IvcChannel(range) => before.ivc_channels@.push(range),
            _ => before.ivc_channels@,
        })
    }

    /// Whether the bundle holds nothing.
    pub open spec fn is_bare(&self) -> bool {
        &&& self.mmio@.len() == 0
        &&& self.port@.len() == 0
        &&& self.sysreg@.len() == 0
        &&& self.pollable@.len() == 0
        &&& self.lifecycle@.len() == 0
        &&& self.ivc_channels@.len() == 0
    }

    /// Creates an empty bundle.
    pub fn new() -> (r: Self)
        ensures
            r.is_bare(),
    {
        DeviceBundle {
            mmio: Vec::new(),
            port: Vec::new(),
            sysreg: Vec::new(),
            pollable: Vec::new(),
            lifecycle: Vec::new(),
            ivc_channels: Vec::new(),
        }
    }

    /// Adds one capability.
    pub fn push(&mut self, registration: DeviceRegistration)
        ensures
            final(self).extends(*old(self), registration),
    {
        match registration {
            DeviceRegistration::Mmio(device) => self.mmio.push(device),
            DeviceRegistration::Port(device) => self.port.push(device),
            DeviceRegistration::SysReg(device) => self.sysreg.push(device),
            DeviceRegistration::Pollable(device) => self.pollable.push(device),
            DeviceRegistration::Lifecycle(device) => self.lifecycle.push(device),
            DeviceRegistration::IvcChannel(range) => self.ivc_channels.push(range),
        }
    }

    /// Adds one capability and returns the bundle.
    pub fn with_registration(self, registration: DeviceRegistration) -> (r: Self)
        ensures
            r.extends(self, registration),
    {
        let mut bundle = self;
        bundle.push(registration);
        bundle
    }

    /// Creates a bundle of one capability.
    pub fn from_registration(registration: DeviceRegistration) -> (r: Self)
        ensures
            exists|bare: DeviceBundle| #[trigger] bare.is_bare() && r.extends(bare, registration),
    {
        let bare = DeviceBundle::new();
        bare.with_registration(registration)
    }
}

/// Index of the first output of that name, or the number of outputs.
pub open spec fn named_output(irqs: Seq<DeviceIrqConfig>, name: Seq<char>) -> int
    decreases irqs.len(),
{
    if irqs.len() == 0 {
        0
    } else if irqs[0].name@ == name {
        0
    } else {
        1 + named_output(irqs.drop_first(), name)
    }
}

/// The line configured under that name, or the default line.
pub open spec fn configured_line(
    irqs: Seq<DeviceIrqConfig>,
    name: Seq<char>,
    default_line: usize,
) -> usize {
    if named_output(irqs, name) < irqs.len() {
        irqs[named_output(irqs, name)].line
    } else {
        default_line
    }
}

/// What a factory may use while it builds a device.
pub struct DeviceBuildContext<'a> {
    resolver: Borrowed<'a, dyn IrqResolver>,
}

impl<'a> DeviceBuildContext<'a> {
    /// The resolver of interrupt lines.
    pub closed spec fn spec_resolver(&self) -> Borrowed<'a, dyn IrqResolver> {
        self.resolver
    }

    /// Creates a context that resolves lines through `resolver`.
    pub fn new(resolver: Borrowed<'a, dyn IrqResolver>) -> (r: Self)
        ensures
            r.spec_resolver() == resolver,
    {
        DeviceBuildContext { resolver }
    }

    /// Resolves a VM-local line in the given trigger mode.
    pub fn resolve_irq(&self, line: usize, trigger: InterruptTriggerMode) -> (r: AxResult<IrqLine>)
        ensures
            self.spec_resolver().obj().resolve_outcome(line, trigger, r),
    {
        self.resolver.get().resolve_irq(line, trigger)
    }

    /// Resolves the line that the configuration gives to the named output, or
    /// the default line if it names none.
    pub fn resolve_config_irq(
        &self,
        config: &EmulatedDeviceConfig,
        name: &String,
        default_line: usize,
        trigger: InterruptTriggerMode,
    ) -> (r: AxResult<IrqLine>)
        ensures
            self.spec_resolver().obj().resolve_outcome(
                configured_line(config.irqs@, name@, default_line),
                trigger,
                r,
            ),
    {
        let mut i: usize = 0;
        proof {
            assert(config.irqs@.skip(0) =~= config.irqs@);
        }
        while i < config.irqs.len()
            invariant
                i <= config.irqs@.len(),
                named_output(config.irqs@, name@) == i + named_output(
                    config.irqs@.skip(i as int),
                    name@,
                ),
            decreases config.irqs@.len() - i,
        {
            if config.irqs[i].name == *name {
                return self.resolve_irq(config.irqs[i].line, trigger);
            }
            proof {
                assert(config.irqs@.skip(i as int).drop_first() =~= config.irqs@.skip(i + 1));
            }
            i = i + 1;
        }
        self.resolve_irq(default_line, trigger)
    }
}

/// Builds the devices of one type.
pub trait DeviceFactory: Send + Sync {
    /// The type of the devices that the factory builds.
    open spec fn spec_device_type(&self) -> EmulatedDeviceType {
        arbitrary()
    }

    /// Whether building from `config` may end with `r`.
    open spec fn build_outcome(
        &self,
        config: EmulatedDeviceConfig,
        resolver: Borrowed<'_, dyn IrqResolver>,
        r: AxResult<DeviceBundle>,
    ) -> bool {
        true
    }

    /// Returns the type of the devices that the factory builds.
    fn device_type(&self) -> (r: EmulatedDeviceType)
        ensures
            r == self.spec_device_type(),
    ;

    /// Builds a device.
    fn build(
        &self,
        config: &EmulatedDeviceConfig,
        context: &DeviceBuildContext<'_>,
    ) -> (r: AxResult<DeviceBundle>)
        ensures
            self.build_outcome(*config, context.spec_resolver(), r),
    ;
}

/// The factories of a VM, one for each device type at most.
pub struct DeviceFactoryRegistry {
    factories: Vec<Shared<dyn DeviceFactory>>,
}

/// Whether the factory at `i` builds devices of that type and no earlier one
/// does.
pub open spec fn factory_at(
    factories: Seq<Shared<dyn DeviceFactory>>,
    device_type: EmulatedDeviceType,
    i: int,
) -> bool {
    &&& 0 <= i < factories.len()
    &&& factories[i].obj().spec_device_type() == device_type
    &&& forall|j: int|
        0 <= j < i ==> (#[trigger] factories[j]).obj().spec_device_type() != device_type
}

/// Whether no factory builds devices of that type.
pub open spec fn no_factory(
    factories: Seq<Shared<dyn DeviceFactory>>,
    device_type: EmulatedDeviceType,
) -> bool {
    forall|j: int|
        0 <= j < factories.len() ==> (#[trigger] factories[j]).obj().spec_device_type() != device_type
}

/// Whether building from `config` with these factories may end with `r`.
pub open spec fn factories_outcome(
    factories: Seq<Shared<dyn DeviceFactory>>,
    config: EmulatedDeviceConfig,
    resolver: Borrowed<'_, dyn IrqResolver>,
    r: AxResult<DeviceBundle>,
) -> bool {
    ||| no_factory(factories, config.emu_type) && r == Err::<DeviceBundle, AxError>(
        AxError::Unsupported,
    )
    ||| exists|i: int|
        #[trigger] factory_at(factories, config.emu_type, i) && factories[i].obj().build_outcome(
            config,
            resolver,
            r,
        )
}

impl DeviceFactoryRegistry {
    /// The registered factories, oldest first.
    pub closed spec fn spec_factories(&self) -> Seq<Shared<dyn DeviceFactory>> {
        self.factories@
    }

    /// Creates a registry without factories.
    pub fn new() -> (r: Self)
        ensures
            r.spec_factories().len() == 0,
    {
        DeviceFactoryRegistry { factories: Vec::new() }
    }

    fn find(&self, device_type: EmulatedDeviceType) -> (r: Option<usize>)
        ensures
            match r {
                Some(i) => factory_at(self.spec_factories(), device_type, i as int),
                None => no_factory(self.spec_factories(), device_type),
            },
    {
        let mut i: usize = 0;
        while i < self.factories.len()
            invariant
                i <= self.factories@.len(),
                forall|j: int|
                    0 <= j < i ==> (#[trigger] self.factories@[j]).obj().spec_device_type()
                        != device_type,
            decreases self.factories@.len() - i,
        {
            if self.factories[i].get().device_type() == device_type {
                return Some(i);
            }
            i = i + 1;
        }
        None
    }

    /// Registers a factory unless its device type has one already.
    pub fn register(&mut self, factory: Shared<dyn DeviceFactory>) -> (r: AxResult<()>)
        ensures
            no_factory(old(self).spec_factories(), factory.obj().spec_device_type()) ==> {
                &&& r is Ok
                &&& final(self).spec_factories() == old(self).spec_factories().push(factory)
            },
            !no_factory(old(self).spec_factories(), factory.obj().spec_device_type()) ==> {
                &&& r == Err::<(), AxError>(AxError::AlreadyExists)
                &&& final(self).spec_factories() == old(self).spec_factories()
            },
    {
        if self.find(factory.get().device_type()).is_some() {
            return Err(AxError::AlreadyExists);
        }
        self.factories.push(factory);
        Ok(())
    }

    /// Builds a device with the factory of its type.
    pub fn build(
        &self,
        config: &EmulatedDeviceConfig,
        context: &DeviceBuildContext<'_>,
    ) -> (r: AxResult<DeviceBundle>)
        ensures
            factories_outcome(self.spec_factories(), *config, context.spec_resolver(), r),
    {
        match self.find(config.emu_type) {
            Some(i) => self.factories[i].get().build(config, context),
            None => Err(AxError::Unsupported),
        }
    }
}

/// An output that the configuration names is driven on the line that stands
/// beside the first output of that name. One that it does not name is driven on
/// the default line.
pub proof fn law_configured_line_is_the_first_of_its_name(
    irqs: Seq<DeviceIrqConfig>,
    name: Seq<char>,
    default_line: usize,
    n: int,
)
    requires
        0 <= n <= irqs.len(),
        forall|i: int| 0 <= i < n ==> (#[trigger] irqs[i]).name@ != name,
        n < irqs.len() ==> irqs[n].name@ == name,
    ensures
        configured_line(irqs, name, default_line) == (if n < irqs.len() {
            irqs[n].line
        } else {
            default_line
        }),
{
    lemma_named_output(irqs, name, n);
}

proof fn lemma_named_output(irqs: Seq<DeviceIrqConfig>, name: Seq<char>, n: int)
    requires
        0 <= n <= irqs.len(),
        forall|i: int| 0 <= i < n ==> (#[trigger] irqs[i]).name@ != name,
        n < irqs.len() ==> irqs[n].name@ == name,
    ensures
        named_output(irqs, name) == n,
    decreases irqs.len(),
{
    if n > 0 {
        let rest = irqs.drop_first();
        assert(irqs[0].name@ != name);
        assert forall|i: int| 0 <= i < n - 1 implies (#[trigger] rest[i]).name@ != name by {
            assert(rest[i] == irqs[i + 1]);
        }
        lemma_named_output(rest, name, n - 1);
    }
}

/// A device is built by the factory of its type, if there is one. With one
/// factory per type, no other factory can have been asked.
pub proof fn law_device_is_built_by_the_factory_of_its_type(
    factories: Seq<Shared<dyn DeviceFactory>>,
    config: EmulatedDeviceConfig,
    resolver: Borrowed<'_, dyn IrqResolver>,
    r: AxResult<DeviceBundle>,
    i: int,
)
    requires
        factories_outcome(factories, config, resolver, r),
        forall|j: int, k: int|
            0 <= j < k < factories.len() ==> (#[trigger] factories[j]).obj().spec_device_type() != (
            #[trigger] factories[k]).obj().spec_device_type(),
    ensures
        0 <= i < factories.len() && factories[i].obj().spec_device_type() == config.emu_type
            ==> factories[i].obj().build_outcome(config, resolver, r),
        (forall|j: int|
            0 <= j < factories.len() ==> (#[trigger] factories[j]).obj().spec_device_type()
                != config.emu_type) ==> r == Err::<DeviceBundle, AxError>(AxError::Unsupported),
{
}

} // verus!
