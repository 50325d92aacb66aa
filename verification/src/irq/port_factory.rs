//! Factories of the x86 port devices.

use crate::device_ops::{PollableDeviceOps, PortDevice};
use crate::error::{AxError, AxResult};
use crate::factory;
use crate::factory::{
    DeviceBuildContext, DeviceBundle, DeviceFactory, DeviceRegistration,
};
use crate::irq::line::{IrqLine, IrqResolver};
use crate::irq::x86;
use crate::irq::x86::{
    resolve_pit_irq, resolve_serial_irq, COM1_GSI, COM1_PORT_BASE, COM1_PORT_LENGTH,
    PIT_PORT_BASE, PIT_PORT_LENGTH, PIT_TIMER_GSI,
};
use crate::shared::{Borrowed, Shared};
use crate::types::{EmulatedDeviceConfig, EmulatedDeviceType, InterruptTriggerMode};
use vstd::prelude::*;

verus! {

/// Two handles to a device that answers port accesses and has to be polled.
pub struct PolledPortDevice {
    /// Handle for the bus.
    pub port: PortDevice,
    /// Handle for polling.
    pub poller: Shared<dyn PollableDeviceOps>,
}

/// Whether the bundle holds the device and nothing else.
pub open spec fn holds_device(bundle: DeviceBundle, device: PolledPortDevice) -> bool {
    &&& bundle.port@ == seq![device.port]
    &&& bundle.pollable@.len() == 1
    &&& bundle.pollable@[0] == device.poller
    &&& bundle.mmio@.len() == 0
    &&& bundle.sysreg@.len() == 0
    &&& bundle.lifecycle@.len() == 0
    &&& bundle.ivc_channels@.len() == 0
}

/// Whether building a device around the line that was resolved may end with
/// `r`: a line that was refused is passed on, and otherwise `create` makes the
/// device.
pub open spec fn created_around<F: Fn(IrqLine) -> PolledPortDevice>(
    create: F,
    line: AxResult<IrqLine>,
    r: AxResult<DeviceBundle>,
) -> bool {
    match line {
        Ok(line) => {
            &&& r is Ok
            &&& exists|device: PolledPortDevice|
                #[trigger] call_ensures(create, (line,), device) && holds_device(r->Ok_0, device)
        },
        Err(error) => r == Err::<DeviceBundle, AxError>(error),
    }
}

fn bundle_around<F: Fn(IrqLine) -> PolledPortDevice>(create: &F, line: AxResult<IrqLine>) -> (r:
    AxResult<DeviceBundle>)
    requires
        forall|line: IrqLine| #[trigger] call_requires(*create, (line,)),
    ensures
        created_around(*create, line, r),
{
    let line = match line {
        Ok(line) => line,
        Err(error) => {
            return Err(error);
        },
    };
    let device = create(line);
    let ghost made = device;
    let bundle = DeviceBundle::new().with_registration(
        DeviceRegistration::Port(device.port),
    ).with_registration(DeviceRegistration::Pollable(device.poller));
    proof {
        assert(bundle.port@ =~= seq![made.port]);
        assert(holds_device(bundle, made));
    }
    Ok(bundle)
}

/// Builds the PIT timer.
pub struct X86PitFactory<F: Fn(IrqLine) -> PolledPortDevice + Send + Sync> {
    create: F,
}

impl<F: Fn(IrqLine) -> PolledPortDevice + Send + Sync> X86PitFactory<F> {
    #[verifier::type_invariant]
    spec fn callable(self) -> bool {
        forall|line: IrqLine| #[trigger] call_requires(self.create, (line,))
    }

    /// The constructor of the device.
    pub closed spec fn spec_create(&self) -> F {
        self.create
    }

    /// Creates the factory from a constructor of the device.
    pub fn new(create: F) -> (r: Self)
        requires
            forall|line: IrqLine| #[trigger] call_requires(create, (line,)),
        ensures
            r.spec_create() == create,
    {
        X86PitFactory { create }
    }
}

impl<F: Fn(IrqLine) -> PolledPortDevice + Send + Sync> DeviceFactory for X86PitFactory<F> {
    open spec fn spec_device_type(&self) -> EmulatedDeviceType {
        EmulatedDeviceType::X86Pit
    }

    /// The timer has fixed ports and drives the line of its output, or the
    /// timer's input, by edges.
    open spec fn build_outcome(
        &self,
        config: EmulatedDeviceConfig,
        resolver: Borrowed<'_, dyn IrqResolver>,
        r: AxResult<DeviceBundle>,
    ) -> bool {
        if x86::port_config_accepted(config, PIT_PORT_BASE, PIT_PORT_LENGTH) {
            exists|line: AxResult<IrqLine>|
                #[trigger] resolver.obj().resolve_outcome(
                    factory::configured_line(config.irqs@, "irq"@, PIT_TIMER_GSI),
                    InterruptTriggerMode::EdgeTriggered,
                    line,
                ) && created_around(self.spec_create(), line, r)
        } else {
            r == Err::<DeviceBundle, AxError>(AxError::InvalidInput)
        }
    }

    fn device_type(&self) -> (r: EmulatedDeviceType) {
        EmulatedDeviceType::X86Pit
    }

    fn build(&self, config: &EmulatedDeviceConfig, context: &DeviceBuildContext<'_>) -> (r: AxResult<
        DeviceBundle,
    >) {
        proof {
            use_type_invariant(self);
        }
        bundle_around(&self.create, resolve_pit_irq(config, context))
    }
}

/// Builds the first serial port.
pub struct X86SerialFactory<F: Fn(IrqLine) -> PolledPortDevice + Send + Sync> {
    create: F,
}

impl<F: Fn(IrqLine) -> PolledPortDevice + Send + Sync> X86SerialFactory<F> {
    #[verifier::type_invariant]
    spec fn callable(self) -> bool {
        forall|line: IrqLine| #[trigger] call_requires(self.create, (line,))
    }

    /// The constructor of the device.
    pub closed spec fn spec_create(&self) -> F {
        self.create
    }

    /// Creates the factory from a constructor of the device.
    pub fn new(create: F) -> (r: Self)
        requires
            forall|line: IrqLine| #[trigger] call_requires(create, (line,)),
        ensures
            r.spec_create() == create,
    {
        X86SerialFactory { create }
    }
}

impl<F: Fn(IrqLine) -> PolledPortDevice + Send + Sync> DeviceFactory for X86SerialFactory<F> {
    open spec fn spec_device_type(&self) -> EmulatedDeviceType {
        EmulatedDeviceType::Console
    }

    /// The serial port has fixed ports and drives the line of its output, or
    /// the port's input, by levels.
    open spec fn build_outcome(
        &self,
        config: EmulatedDeviceConfig,
        resolver: Borrowed<'_, dyn IrqResolver>,
        r: AxResult<DeviceBundle>,
    ) -> bool {
        if x86::port_config_accepted(config, COM1_PORT_BASE, COM1_PORT_LENGTH) {
            exists|line: AxResult<IrqLine>|
                #[trigger] resolver.obj().resolve_outcome(
                    factory::configured_line(config.irqs@, "irq"@, COM1_GSI),
                    InterruptTriggerMode::LevelTriggered,
                    line,
                ) && created_around(self.spec_create(), line, r)
        } else {
            r == Err::<DeviceBundle, AxError>(AxError::InvalidInput)
        }
    }

    fn device_type(&self) -> (r: EmulatedDeviceType) {
        EmulatedDeviceType::Console
    }

    fn build(&self, config: &EmulatedDeviceConfig, context: &DeviceBuildContext<'_>) -> (r: AxResult<
        DeviceBundle,
    >) {
        proof {
            use_type_invariant(self);
        }
        bundle_around(&self.create, resolve_serial_irq(config, context))
    }
}

/// The timer stands at ports 0x40 to 0x61 and takes no arguments; any other
/// configuration is invalid. It drives the line that is configured under the name
/// `irq`, or line 0 where none is, by edges. A line that is refused is passed on,
/// and otherwise the bundle holds the device that was made around the line, as a port
/// device and for polling, and nothing else.
pub proof fn law_timer_drives_its_line_by_edges<F: Fn(IrqLine) -> PolledPortDevice + Send + Sync>(
    factory: X86PitFactory<F>,
    config: EmulatedDeviceConfig,
    resolver: Borrowed<'_, dyn IrqResolver>,
    r: AxResult<DeviceBundle>,
)
    requires
        factory.build_outcome(config, resolver, r),
    ensures
        ({
            let accepted = config.base_gpa == 0x40 && config.length == 0x22
                && config.cfg_list@.len() == 0;
            &&& !accepted ==> r == Err::<DeviceBundle, AxError>(AxError::InvalidInput)
            &&& accepted ==> exists|line: AxResult<IrqLine>|
                {
                    &&& #[trigger] resolver.obj().resolve_outcome(
                        factory::configured_line(config.irqs@, "irq"@, 0),
                        InterruptTriggerMode::EdgeTriggered,
                        line,
                    )
                    &&& line is Err ==> r == Err::<DeviceBundle, AxError>(line->Err_0)
                    &&& line is Ok ==> r is Ok && exists|device: PolledPortDevice|
                        {
                            &&& #[trigger] call_ensures(
                                factory.spec_create(),
                                (line->Ok_0,),
                                device,
                            )
                            &&& r->Ok_0.port@.len() == 1
                            &&& r->Ok_0.port@[0] == device.port
                            &&& r->Ok_0.pollable@.len() == 1
                            &&& r->Ok_0.pollable@[0] == device.poller
                            &&& r->Ok_0.mmio@.len() == 0
                            &&& r->Ok_0.sysreg@.len() == 0
                            &&& r->Ok_0.lifecycle@.len() == 0
                            &&& r->Ok_0.ivc_channels@.len() == 0
                        }
                }
        }),
{
}

/// The serial port stands at ports 0x3f8 to 0x3ff and takes no arguments; any other
/// configuration is invalid. It drives the line that is configured under the name
/// `irq`, or line 4 where none is, by levels. A line that is refused is passed on,
/// and otherwise the bundle holds the device that was made around the line, as a port
/// device and for polling, and nothing else.
pub proof fn law_serial_port_drives_its_line_by_levels<F: Fn(IrqLine) -> PolledPortDevice + Send + Sync>(
    factory: X86SerialFactory<F>,
    config: EmulatedDeviceConfig,
    resolver: Borrowed<'_, dyn IrqResolver>,
    r: AxResult<DeviceBundle>,
)
    requires
        factory.build_outcome(config, resolver, r),
    ensures
        ({
            let accepted = config.base_gpa == 0x3f8 && config.length == 8
                && config.cfg_list@.len() == 0;
            &&& !accepted ==> r == Err::<DeviceBundle, AxError>(AxError::InvalidInput)
            &&& accepted ==> exists|line: AxResult<IrqLine>|
                {
                    &&& #[trigger] resolver.obj().resolve_outcome(
                        factory::configured_line(config.irqs@, "irq"@, 4),
                        InterruptTriggerMode::LevelTriggered,
                        line,
                    )
                    &&& line is Err ==> r == Err::<DeviceBundle, AxError>(line->Err_0)
                    &&& line is Ok ==> r is Ok && exists|device: PolledPortDevice|
                        {
                            &&& #[trigger] call_ensures(
                                factory.spec_create(),
                                (line->Ok_0,),
                                device,
                            )
                            &&& r->Ok_0.port@.len() == 1
                            &&& r->Ok_0.port@[0] == device.port
                            &&& r->Ok_0.pollable@.len() == 1
                            &&& r->Ok_0.pollable@[0] == device.poller
                            &&& r->Ok_0.mmio@.len() == 0
                            &&& r->Ok_0.sysreg@.len() == 0
                            &&& r->Ok_0.lifecycle@.len() == 0
                            &&& r->Ok_0.ivc_channels@.len() == 0
                        }
                }
        }),
{
}

} // verus!
