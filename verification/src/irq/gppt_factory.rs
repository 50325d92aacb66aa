//! Factories of the GIC partial-passthrough devices.

use crate::device_ops::MmioDevice;
use crate::error::{AxError, AxResult};
use crate::factory::{DeviceBuildContext, DeviceBundle, DeviceFactory, DeviceRegistration};
use crate::irq::aarch64;
use crate::irq::aarch64::{
    its_host_base, place_redistributors, validate_distributor, RedistributorPlacement,
};
use crate::irq::line::IrqResolver;
use crate::shared::Borrowed;
use crate::types::{EmulatedDeviceConfig, EmulatedDeviceType};
use vstd::prelude::*;

verus! {

/// Whether the bundle holds MMIO capabilities only.
pub open spec fn is_mmio_only(bundle: DeviceBundle) -> bool {
    &&& bundle.port@.len() == 0
    &&& bundle.sysreg@.len() == 0
    &&& bundle.pollable@.len() == 0
    &&& bundle.lifecycle@.len() == 0
    &&& bundle.ivc_channels@.len() == 0
}

/// Builds redistributors, one per CPU.
pub struct GpptRedistributorFactory<F: Fn(RedistributorPlacement) -> MmioDevice + Send + Sync> {
    create: F,
}

impl<F: Fn(RedistributorPlacement) -> MmioDevice + Send + Sync> GpptRedistributorFactory<F> {
    #[verifier::type_invariant]
    spec fn callable(self) -> bool {
        forall|placement: RedistributorPlacement| #[trigger]
            call_requires(self.create, (placement,))
    }

    /// The constructor of a redistributor.
    pub closed spec fn spec_create(&self) -> F {
        self.create
    }

    /// Creates the factory from a constructor of a redistributor.
    pub fn new(create: F) -> (r: Self)
        requires
            forall|placement: RedistributorPlacement| #[trigger]
                call_requires(create, (placement,)),
        ensures
            r.spec_create() == create,
    {
        GpptRedistributorFactory { create }
    }
}

impl<F: Fn(RedistributorPlacement) -> MmioDevice + Send + Sync> DeviceFactory
    for GpptRedistributorFactory<F> {
    open spec fn spec_device_type(&self) -> EmulatedDeviceType {
        EmulatedDeviceType::GPPTRedistributor
    }

    /// A configuration whose redistributors do not fit is refused. Otherwise
    /// the bundle holds a redistributor for each CPU, in order.
    open spec fn build_outcome(
        &self,
        config: EmulatedDeviceConfig,
        resolver: Borrowed<'_, dyn IrqResolver>,
        r: AxResult<DeviceBundle>,
    ) -> bool {
        match r {
            Ok(bundle) => {
                &&& aarch64::redistributors_fit(config)
                &&& is_mmio_only(bundle)
                &&& bundle.mmio@.len() == config.cfg_list@[0]
                &&& forall|i: int|
                    0 <= i < bundle.mmio@.len() ==> call_ensures(
                        self.spec_create(),
                        (aarch64::redistributor_at(config, i),),
                        #[trigger] bundle.mmio@[i],
                    )
            },
            Err(error) => !aarch64::redistributors_fit(config) && error == AxError::InvalidInput,
        }
    }

    fn device_type(&self) -> (r: EmulatedDeviceType) {
        EmulatedDeviceType::GPPTRedistributor
    }

    fn build(&self, config: &EmulatedDeviceConfig, context: &DeviceBuildContext<'_>) -> (r: AxResult<
        DeviceBundle,
    >) {
        proof {
            use_type_invariant(self);
        }
        let placements = match place_redistributors(config) {
            Ok(placements) => placements,
            Err(error) => {
                return Err(error);
            },
        };
        let mut bundle = DeviceBundle::new();
        let mut i: usize = 0;
        while i < placements.len()
            invariant
                forall|placement: RedistributorPlacement| #[trigger]
                    call_requires(self.create, (placement,)),
                i <= placements@.len(),
                forall|j: int|
                    0 <= j < placements@.len() ==> #[trigger] placements@[j]
                        == aarch64::redistributor_at(*config, j),
                is_mmio_only(bundle),
                bundle.mmio@.len() == i,
                forall|j: int|
                    0 <= j < i ==> call_ensures(
                        self.create,
                        (aarch64::redistributor_at(*config, j),),
                        #[trigger] bundle.mmio@[j],
                    ),
            decreases placements@.len() - i,
        {
            assert(placements@[i as int] == aarch64::redistributor_at(*config, i as int));
            let device = (self.create)(placements[i]);
            bundle.push(DeviceRegistration::Mmio(device));
            i = i + 1;
        }
        Ok(bundle)
    }
}

/// Builds a distributor.
pub struct GpptDistributorFactory<F: Fn(usize, usize) -> MmioDevice + Send + Sync> {
    create: F,
}

impl<F: Fn(usize, usize) -> MmioDevice + Send + Sync> GpptDistributorFactory<F> {
    #[verifier::type_invariant]
    spec fn callable(self) -> bool {
        forall|base_gpa: usize, length: usize| #[trigger]
            call_requires(self.create, (base_gpa, length))
    }

    /// The constructor of a distributor, from its address and size.
    pub closed spec fn spec_create(&self) -> F {
        self.create
    }

    /// Creates the factory from a constructor of a distributor.
    pub fn new(create: F) -> (r: Self)
        requires
            forall|base_gpa: usize, length: usize| #[trigger]
                call_requires(create, (base_gpa, length)),
        ensures
            r.spec_create() == create,
    {
        GpptDistributorFactory { create }
    }
}

impl<F: Fn(usize, usize) -> MmioDevice + Send + Sync> DeviceFactory for GpptDistributorFactory<F> {
    open spec fn spec_device_type(&self) -> EmulatedDeviceType {
        EmulatedDeviceType::GPPTDistributor
    }

    /// The MMIO range has to be valid, and there are no arguments.
    open spec fn build_outcome(
        &self,
        config: EmulatedDeviceConfig,
        resolver: Borrowed<'_, dyn IrqResolver>,
        r: AxResult<DeviceBundle>,
    ) -> bool {
        if aarch64::mmio_range_valid(config) && config.cfg_list@.len() == 0 {
            &&& r is Ok
            &&& is_mmio_only(r->Ok_0)
            &&& r->Ok_0.mmio@.len() == 1
            &&& call_ensures(
                self.spec_create(),
                (config.base_gpa, config.length),
                r->Ok_0.mmio@[0],
            )
        } else {
            r == Err::<DeviceBundle, AxError>(AxError::InvalidInput)
        }
    }

    fn device_type(&self) -> (r: EmulatedDeviceType) {
        EmulatedDeviceType::GPPTDistributor
    }

    fn build(&self, config: &EmulatedDeviceConfig, context: &DeviceBuildContext<'_>) -> (r: AxResult<
        DeviceBundle,
    >) {
        proof {
            use_type_invariant(self);
        }
        match validate_distributor(config) {
            Ok(()) => {},
            Err(error) => {
                return Err(error);
            },
        }
        let device = (self.create)(config.base_gpa, config.length);
        Ok(DeviceBundle::from_registration(DeviceRegistration::Mmio(device)))
    }
}

/// Builds an interrupt translation service.
pub struct GpptItsFactory<F: Fn(usize, usize, usize) -> MmioDevice + Send + Sync> {
    create: F,
}

impl<F: Fn(usize, usize, usize) -> MmioDevice + Send + Sync> GpptItsFactory<F> {
    #[verifier::type_invariant]
    spec fn callable(self) -> bool {
        forall|base_gpa: usize, length: usize, host_base: usize| #[trigger]
            call_requires(self.create, (base_gpa, length, host_base))
    }

    /// The constructor of a service, from its address, its size and the host
    /// address that backs it.
    pub closed spec fn spec_create(&self) -> F {
        self.create
    }

    /// Creates the factory from a constructor of a service.
    pub fn new(create: F) -> (r: Self)
        requires
            forall|base_gpa: usize, length: usize, host_base: usize| #[trigger]
                call_requires(create, (base_gpa, length, host_base)),
        ensures
            r.spec_create() == create,
    {
        GpptItsFactory { create }
    }
}

impl<F: Fn(usize, usize, usize) -> MmioDevice + Send + Sync> DeviceFactory for GpptItsFactory<F> {
    open spec fn spec_device_type(&self) -> EmulatedDeviceType {
        EmulatedDeviceType::GPPTITS
    }

    /// The MMIO range has to be valid, and the one argument is the host address
    /// that backs the service.
    open spec fn build_outcome(
        &self,
        config: EmulatedDeviceConfig,
        resolver: Borrowed<'_, dyn IrqResolver>,
        r: AxResult<DeviceBundle>,
    ) -> bool {
        if aarch64::mmio_range_valid(config) && config.cfg_list@.len() == 1 {
            &&& r is Ok
            &&& is_mmio_only(r->Ok_0)
            &&& r->Ok_0.mmio@.len() == 1
            &&& call_ensures(
                self.spec_create(),
                (config.base_gpa, config.length, config.cfg_list@[0]),
                r->Ok_0.mmio@[0],
            )
        } else {
            r == Err::<DeviceBundle, AxError>(AxError::InvalidInput)
        }
    }

    fn device_type(&self) -> (r: EmulatedDeviceType) {
        EmulatedDeviceType::GPPTITS
    }

    fn build(&self, config: &EmulatedDeviceConfig, context: &DeviceBuildContext<'_>) -> (r: AxResult<
        DeviceBundle,
    >) {
        proof {
            use_type_invariant(self);
        }
        let host_base: usize = match its_host_base(config) {
            Ok(host_base) => host_base,
            Err(error) => {
                return Err(error);
            },
        };
        let device = (self.create)(config.base_gpa, config.length, host_base);
        Ok(DeviceBundle::from_registration(DeviceRegistration::Mmio(device)))
    }
}

/// A distributor needs a range of addresses and takes no argument, and a translation
/// service takes one: where the host has it. Each becomes one MMIO device and nothing
/// else; any other configuration is invalid.
pub proof fn law_distributor_and_service_are_one_device<
    D: Fn(usize, usize) -> MmioDevice + Send + Sync,
    S: Fn(usize, usize, usize) -> MmioDevice + Send + Sync,
>(
    distributor: GpptDistributorFactory<D>,
    service: GpptItsFactory<S>,
    config: EmulatedDeviceConfig,
    resolver: Borrowed<'_, dyn IrqResolver>,
    d: AxResult<DeviceBundle>,
    s: AxResult<DeviceBundle>,
)
    requires
        distributor.build_outcome(config, resolver, d),
        service.build_outcome(config, resolver, s),
    ensures
        ({
            let placed = 0 < config.length && config.base_gpa + config.length <= usize::MAX;
            &&& d is Ok <==> placed && config.cfg_list@.len() == 0
            &&& s is Ok <==> placed && config.cfg_list@.len() == 1
            &&& d is Err ==> d == Err::<DeviceBundle, AxError>(AxError::InvalidInput)
            &&& s is Err ==> s == Err::<DeviceBundle, AxError>(AxError::InvalidInput)
            &&& d is Ok ==> {
                &&& d->Ok_0.mmio@.len() == 1
                &&& call_ensures(
                    distributor.spec_create(),
                    (config.base_gpa, config.length),
                    d->Ok_0.mmio@[0],
                )
                &&& d->Ok_0.port@.len() == 0
                &&& d->Ok_0.sysreg@.len() == 0
                &&& d->Ok_0.pollable@.len() == 0
                &&& d->Ok_0.lifecycle@.len() == 0
                &&& d->Ok_0.ivc_channels@.len() == 0
            }
            &&& s is Ok ==> {
                &&& s->Ok_0.mmio@.len() == 1
                &&& call_ensures(
                    service.spec_create(),
                    (config.base_gpa, config.length, config.cfg_list@[0]),
                    s->Ok_0.mmio@[0],
                )
                &&& s->Ok_0.port@.len() == 0
                &&& s->Ok_0.sysreg@.len() == 0
                &&& s->Ok_0.pollable@.len() == 0
                &&& s->Ok_0.lifecycle@.len() == 0
                &&& s->Ok_0.ivc_channels@.len() == 0
            }
        }),
{
}

/// Redistributors take three arguments: how many they are, the distance between
/// them, and the first CPU. They are accepted where there is at least one, at a
/// positive distance, and neither an address nor a CPU number overflows. Each becomes
/// one MMIO device, at its own address and for its own CPU, in order.
pub proof fn law_every_redistributor_is_one_device<
    F: Fn(RedistributorPlacement) -> MmioDevice + Send + Sync,
>(
    factory: GpptRedistributorFactory<F>,
    config: EmulatedDeviceConfig,
    resolver: Borrowed<'_, dyn IrqResolver>,
    r: AxResult<DeviceBundle>,
)
    requires
        factory.build_outcome(config, resolver, r),
    ensures
        ({
            let args = config.cfg_list@;
            let fit = args.len() == 3 && args[0] > 0 && args[1] > 0 && config.length > 0
                && config.base_gpa + (args[0] - 1) * args[1] + config.length <= usize::MAX
                && config.base_gpa + config.length <= usize::MAX && args[2] + args[0] - 1
                <= usize::MAX;
            &&& r is Ok <==> fit
            &&& r is Err ==> r == Err::<DeviceBundle, AxError>(AxError::InvalidInput)
            &&& r is Ok ==> {
                &&& r->Ok_0.mmio@.len() == args[0]
                &&& forall|i: int|
                    0 <= i < args[0] ==> call_ensures(
                        factory.spec_create(),
                        (
                            (RedistributorPlacement {
                                base_gpa: (config.base_gpa + i * args[1]) as usize,
                                length: config.length,
                                pcpu_id: (args[2] + i) as usize,
                            }),
                        ),
                        #[trigger] r->Ok_0.mmio@[i],
                    )
                &&& r->Ok_0.port@.len() == 0
                &&& r->Ok_0.sysreg@.len() == 0
                &&& r->Ok_0.pollable@.len() == 0
                &&& r->Ok_0.lifecycle@.len() == 0
                &&& r->Ok_0.ivc_channels@.len() == 0
            }
        }),
{
}

} // verus!
