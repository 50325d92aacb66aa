//! What the devices of a VM look like from outside, and how a bundle joins
//! them.

use crate::device;
use crate::device_ops;
use crate::device_ops::{
    BaseDeviceOps, MmioDevice, PollableDeviceOps, PortDevice, SysRegDevice,
};
use crate::error::{AxError, AxResult};
use crate::factory;
use crate::factory::{DeviceBundle, DeviceFactory};
use crate::irq::line::IrqResolver;
use crate::lifecycle::DeviceLifecycle;
use crate::range::DeviceAddrRange;
use crate::range_alloc;
use crate::shared::{Borrowed, Shared};
use crate::types::{EmulatedDeviceConfig, GuestPhysAddr};
use core::ops::Range;
use vstd::prelude::*;

verus! {

/// An inter-VM communication range with the pieces of it that are handed out.
pub struct IvcState {
    /// The whole range.
    pub pool: Range<usize>,
    /// The pieces, by address.
    pub allocated: Seq<Range<usize>>,
}

/// The devices of a VM, each list oldest first.
#[verifier::ext_equal]
pub struct DeviceLists {
    /// MMIO devices.
    pub mmio: Seq<MmioDevice>,
    /// Port devices.
    pub port: Seq<PortDevice>,
    /// System register devices.
    pub sysreg: Seq<SysRegDevice>,
    /// Polled devices.
    pub pollable: Seq<Shared<dyn PollableDeviceOps>>,
    /// Devices with lifecycle hooks.
    pub lifecycle: Seq<Shared<dyn DeviceLifecycle>>,
    /// The inter-VM communication range, if there is one.
    pub ivc: Option<IvcState>,
}

/// What asking for a piece of the communication range does: sizes that are zero or
/// no multiple of the page size are invalid, and so is asking without a range; the
/// lowest piece that fits is handed out, and there is no memory where none does.
pub open spec fn channel_allocated(
    before: Option<IvcState>,
    after: Option<IvcState>,
    size: usize,
    r: AxResult<GuestPhysAddr>,
) -> bool {
    if size == 0 || size % 4096 != 0 || before is None {
        &&& r == Err::<GuestPhysAddr, AxError>(AxError::InvalidInput)
        &&& after == before
    } else {
        &&& after is Some
        &&& after->0.pool == before->0.pool
        &&& match r {
            Ok(addr) => {
                &&& addr.0 + size <= usize::MAX
                &&& range_alloc::allocated_lowest(
                    before->0.pool,
                    before->0.allocated,
                    after->0.allocated,
                    size,
                    Some((addr.0..(addr.0 + size) as usize)),
                )
            },
            Err(error) => {
                &&& error == AxError::NoMemory
                &&& range_alloc::allocated_lowest(
                    before->0.pool,
                    before->0.allocated,
                    after->0.allocated,
                    size,
                    None,
                )
            },
        }
    }
}

/// What giving a piece of the communication range back does.
pub open spec fn channel_released(
    before: Option<IvcState>,
    after: Option<IvcState>,
    addr: GuestPhysAddr,
    size: usize,
    r: AxResult<()>,
) -> bool {
    if size == 0 || size % 4096 != 0 || before is None {
        &&& r == Err::<(), AxError>(AxError::InvalidInput)
        &&& after == before
    } else {
        &&& after is Some
        &&& after->0.pool == before->0.pool
        &&& range_alloc::given_back(
            before->0.allocated,
            after->0.allocated,
            (addr.0..(addr.0 + size) as usize),
            r is Ok,
        )
        &&& r is Err ==> r == Err::<(), AxError>(AxError::InvalidInput)
    }
}

/// Whether a device of `wanted` equals one of `taken` or an earlier one of
/// `wanted`.
pub open spec fn repeats<T>(wanted: Seq<T>, taken: Seq<T>) -> bool {
    exists|i: int, j: int|
        0 <= i < j < taken.len() + wanted.len() && taken.len() <= j && #[trigger] (taken + wanted)[i]
            == #[trigger] (taken + wanted)[j]
}

/// Whether `same` may have answered yes for a device of `wanted` and one of
/// `taken` or an earlier one of `wanted`.
pub open spec fn found_same<T, F: Fn(&T, &T) -> bool>(
    wanted: Seq<T>,
    taken: Seq<T>,
    same: F,
) -> bool {
    exists|i: int, j: int|
        #![trigger (taken + wanted)[i], (taken + wanted)[j]]
        0 <= i < j < taken.len() + wanted.len() && taken.len() <= j && call_ensures(
            same,
            (&(taken + wanted)[i], &(taken + wanted)[j]),
            true,
        )
}

/// Whether `same` may have answered no for each device of `wanted` beside all of
/// `taken` and the earlier ones of `wanted`.
pub open spec fn told_apart<T, F: Fn(&T, &T) -> bool>(
    wanted: Seq<T>,
    taken: Seq<T>,
    same: F,
) -> bool {
    forall|i: int, j: int|
        #![trigger (taken + wanted)[i], (taken + wanted)[j]]
        0 <= i < j < taken.len() + wanted.len() && taken.len() <= j ==> call_ensures(
            same,
            (&(taken + wanted)[i], &(taken + wanted)[j]),
            false,
        )
}

/// The verdict on inter-VM communication ranges: there is one at most, and it
/// holds an address.
pub open spec fn ivc_verdict(present: bool, channels: Seq<Range<usize>>) -> AxResult<()> {
    if channels.len() == 0 {
        Ok(())
    } else if present || channels.len() > 1 {
        Err(AxError::AlreadyExists)
    } else if channels[0].start >= channels[0].end {
        Err(AxError::InvalidInput)
    } else {
        Ok(())
    }
}

impl DeviceLists {
    /// No devices.
    pub open spec fn empty() -> Self {
        DeviceLists {
            mmio: Seq::empty(),
            port: Seq::empty(),
            sysreg: Seq::empty(),
            pollable: Seq::empty(),
            lifecycle: Seq::empty(),
            ivc: None,
        }
    }

    /// The verdict on a bundle: the first objection of the buses and the
    /// communication range, and after them that a polled device or a lifecycle
    /// hook is a repetition.
    pub open spec fn verdict(self, bundle: DeviceBundle, repeated: bool) -> AxResult<()> {
        let on_mmio = device::group_placement(
            device::ranges(bundle.mmio@),
            device::ranges(self.mmio),
        );
        let on_port = device::group_placement(
            device::ranges(bundle.port@),
            device::ranges(self.port),
        );
        let on_sysreg = device::group_placement(
            device::ranges(bundle.sysreg@),
            device::ranges(self.sysreg),
        );
        let on_ivc = ivc_verdict(self.ivc is Some, bundle.ivc_channels@);
        if on_mmio is Err {
            on_mmio
        } else if on_port is Err {
            on_port
        } else if on_sysreg is Err {
            on_sysreg
        } else if on_ivc is Err {
            on_ivc
        } else if repeated {
            Err(AxError::AlreadyExists)
        } else {
            Ok(())
        }
    }

    /// The devices together with those of a bundle.
    pub open spec fn with_bundle(self, bundle: DeviceBundle) -> Self {
        DeviceLists {
            mmio: self.mmio + bundle.mmio@,
            port: self.port + bundle.port@,
            sysreg: self.sysreg + bundle.sysreg@,
            pollable: self.pollable + bundle.pollable@,
            lifecycle: self.lifecycle + bundle.lifecycle@,
            ivc: if bundle.ivc_channels@.len() == 0 {
                self.ivc
            } else {
                Some(IvcState { pool: bundle.ivc_channels@[0], allocated: Seq::empty() })
            },
        }
    }

    /// What becomes of the devices when a bundle asks to join them.
    pub open spec fn after_bundle(self, bundle: DeviceBundle, repeated: bool) -> Self {
        if self.verdict(bundle, repeated) is Ok {
            self.with_bundle(bundle)
        } else {
            self
        }
    }

    /// Whether the bundle has a polled device or a lifecycle hook that equals
    /// another one. Only then can it be a repetition.
    pub open spec fn may_repeat(self, bundle: DeviceBundle) -> bool {
        repeats(bundle.pollable@, self.pollable) || repeats(bundle.lifecycle@, self.lifecycle)
    }

    /// Whether comparing the objects behind the handles may have shown a polled
    /// device or a lifecycle hook of the bundle to be registered already or to
    /// stand in the bundle twice.
    pub open spec fn found_repetition(self, bundle: DeviceBundle) -> bool {
        ||| found_same(
            bundle.pollable@,
            self.pollable,
            Shared::<dyn PollableDeviceOps>::is_same,
        )
        ||| found_same(
            bundle.lifecycle@,
            self.lifecycle,
            Shared::<dyn DeviceLifecycle>::is_same,
        )
    }

    /// Whether comparing the objects behind the handles may have shown all polled
    /// devices and lifecycle hooks of the bundle to be new and different.
    pub open spec fn found_no_repetition(self, bundle: DeviceBundle) -> bool {
        &&& told_apart(
            bundle.pollable@,
            self.pollable,
            Shared::<dyn PollableDeviceOps>::is_same,
        )
        &&& told_apart(
            bundle.lifecycle@,
            self.lifecycle,
            Shared::<dyn DeviceLifecycle>::is_same,
        )
    }

    /// Whether registering a bundle may turn `self` into `after` and end with
    /// `r`: the comparisons decide whether the bundle is a repetition.
    pub open spec fn joined(self, after: Self, bundle: DeviceBundle, r: AxResult<()>) -> bool {
        exists|repeated: bool|
            {
                &&& repeated ==> self.found_repetition(bundle)
                &&& !repeated ==> self.found_no_repetition(bundle)
                &&& r == #[trigger] self.verdict(bundle, repeated)
                &&& after == self.after_bundle(bundle, repeated)
            }
    }

    /// Whether building a device and registering it may turn `self` into
    /// `after` and end with `r`.
    pub open spec fn built(
        self,
        after: Self,
        config: EmulatedDeviceConfig,
        factories: Seq<Shared<dyn DeviceFactory>>,
        resolver: Borrowed<'_, dyn IrqResolver>,
        r: AxResult<()>,
    ) -> bool {
        exists|bundle: AxResult<DeviceBundle>|
            {
                &&& #[trigger] factory::factories_outcome(factories, config, resolver, bundle)
                &&& match bundle {
                    Ok(bundle) => self.joined(after, bundle, r),
                    Err(error) => r == Err::<(), AxError>(error) && after == self,
                }
            }
    }

    /// Whether all configurations may be built, one after the other, so that
    /// `self` turns into `after`.
    pub open spec fn all_built(
        self,
        after: Self,
        configs: Seq<EmulatedDeviceConfig>,
        factories: Seq<Shared<dyn DeviceFactory>>,
        resolver: Borrowed<'_, dyn IrqResolver>,
    ) -> bool
        decreases configs.len(),
    {
        if configs.len() == 0 {
            after == self
        } else {
            exists|before: Self|
                {
                    &&& self.all_built(before, configs.drop_last(), factories, resolver)
                    &&& #[trigger] before.built(after, configs.last(), factories, resolver, Ok(()))
                }
        }
    }

    /// Whether the first `k` configurations may be built and the next one may
    /// then fail with `error`.
    pub open spec fn built_until(
        self,
        k: int,
        configs: Seq<EmulatedDeviceConfig>,
        factories: Seq<Shared<dyn DeviceFactory>>,
        resolver: Borrowed<'_, dyn IrqResolver>,
        error: AxError,
    ) -> bool {
        &&& 0 <= k < configs.len()
        &&& exists|before: Self|
            {
                &&& #[trigger] self.all_built(before, configs.take(k), factories, resolver)
                &&& before.built(before, configs[k], factories, resolver, Err(error))
            }
    }

    /// Whether the devices can serve a VM together: the buses keep their
    /// devices apart, and the pieces of the communication range do not overlap.
    pub open spec fn sound(self) -> bool {
        &&& device_ops::separate(self.mmio)
        &&& device_ops::separate(self.port)
        &&& device_ops::separate(self.sysreg)
        &&& self.ivc is Some ==> range_alloc::laid_out(self.ivc->0.pool, self.ivc->0.allocated)
    }
}

proof fn lemma_same_are_equal<T: ?Sized>(wanted: Seq<Shared<T>>, taken: Seq<Shared<T>>)
    ensures
        found_same(wanted, taken, Shared::<T>::is_same) ==> repeats(wanted, taken),
{
}

/// A bundle that was accepted joins the devices without disturbing them.
pub proof fn law_accepted_bundle_stays_sound(
    lists: DeviceLists,
    bundle: DeviceBundle,
    repeated: bool,
)
    requires
        lists.sound(),
        lists.verdict(bundle, repeated) is Ok,
    ensures
        lists.with_bundle(bundle).sound(),
{
    device::law_accepted_group_stays_separate(lists.mmio, bundle.mmio@);
    device::law_accepted_group_stays_separate(lists.port, bundle.port@);
    device::law_accepted_group_stays_separate(lists.sysreg, bundle.sysreg@);
}

/// A device list grows at its end only: what was registered stays where it was.
pub proof fn law_registration_keeps_earlier_devices(
    lists: DeviceLists,
    after: DeviceLists,
    bundle: DeviceBundle,
    r: AxResult<()>,
)
    requires
        lists.joined(after, bundle, r),
    ensures
        lists.mmio.is_prefix_of(after.mmio),
        lists.port.is_prefix_of(after.port),
        lists.sysreg.is_prefix_of(after.sysreg),
        lists.pollable.is_prefix_of(after.pollable),
        lists.lifecycle.is_prefix_of(after.lifecycle),
        lists.ivc is Some ==> after.ivc == lists.ivc,
{
}

/// A bundle is refused as a repetition only if one of its polled devices or
/// lifecycle hooks equals another one: without such a pair, the buses and the
/// communication range decide alone.
pub proof fn law_distinct_devices_are_no_repetition(
    lists: DeviceLists,
    after: DeviceLists,
    bundle: DeviceBundle,
    r: AxResult<()>,
)
    requires
        lists.joined(after, bundle, r),
        !lists.may_repeat(bundle),
    ensures
        r == lists.verdict(bundle, false),
        after == lists.after_bundle(bundle, false),
{
    lemma_same_are_equal(bundle.pollable@, lists.pollable);
    lemma_same_are_equal(bundle.lifecycle@, lists.lifecycle);
}

/// A bundle is accepted only if all its polled devices and lifecycle hooks were
/// told apart from the registered ones and from each other. If the buses and the
/// communication range have nothing to object and it is refused, one was found
/// to be a repetition, and that is the error.
pub proof fn law_repetition_is_refused(
    lists: DeviceLists,
    after: DeviceLists,
    bundle: DeviceBundle,
    r: AxResult<()>,
)
    requires
        lists.joined(after, bundle, r),
    ensures
        r is Ok ==> lists.found_no_repetition(bundle),
        r is Err && lists.verdict(bundle, false) is Ok ==> {
            &&& r == Err::<(), AxError>(AxError::AlreadyExists)
            &&& lists.found_repetition(bundle)
        },
{
}

/// The same bundle is accepted once at most if it holds a bus device or a
/// communication range.
pub proof fn law_bundle_is_accepted_once(
    lists: DeviceLists,
    once: DeviceLists,
    twice: DeviceLists,
    bundle: DeviceBundle,
    r: AxResult<()>,
)
    requires
        lists.joined(once, bundle, Ok(())),
        once.joined(twice, bundle, r),
        bundle.mmio@.len() + bundle.port@.len() + bundle.sysreg@.len() + bundle.ivc_channels@.len()
            > 0,
    ensures
        r is Err,
        twice == once,
{
    if r is Ok {
        if bundle.mmio@.len() > 0 {
            lemma_second_group_collides(lists.mmio, bundle.mmio@);
        }
        if bundle.port@.len() > 0 {
            lemma_second_group_collides(lists.port, bundle.port@);
        }
        if bundle.sysreg@.len() > 0 {
            lemma_second_group_collides(lists.sysreg, bundle.sysreg@);
        }
    }
}

proof fn lemma_second_group_collides<R: DeviceAddrRange>(
    devices: Seq<Shared<dyn BaseDeviceOps<R>>>,
    group: Seq<Shared<dyn BaseDeviceOps<R>>>,
)
    requires
        group.len() > 0,
    ensures
        device::group_placement(device::ranges(group), device::ranges(devices + group)) is Err,
{
    let wanted = device::ranges(group);
    let taken = device::ranges(devices + group);
    assert(wanted[0] == taken[devices.len() as int]);
    if device::placement(wanted[0], taken) is Ok {
        device::lemma_placed_collides_with_none(wanted[0], taken, devices.len() as int);
    }
}

/// Whether a group of calls, one per device, may end with `r`: all succeed, or
/// those before the first that fails do.
pub open spec fn run_outcome(
    n: int,
    succeeds: spec_fn(int) -> bool,
    fails: spec_fn(int, AxError) -> bool,
    r: AxResult<()>,
) -> bool {
    match r {
        Ok(_) => forall|i: int| 0 <= i < n ==> #[trigger] succeeds(i),
        Err(error) => exists|k: int|
            {
                &&& 0 <= k < n
                &&& #[trigger] fails(k, error)
                &&& forall|i: int| 0 <= i < k ==> #[trigger] succeeds(i)
            },
    }
}

/// Whether resetting the devices in order may end with `r`.
pub open spec fn reset_run(devices: Seq<Shared<dyn DeviceLifecycle>>, r: AxResult<()>) -> bool {
    run_outcome(
        devices.len() as int,
        |i: int| devices[i].obj().reset_outcome(Ok(())),
        |i: int, error: AxError| devices[i].obj().reset_outcome(Err(error)),
        r,
    )
}

/// Whether suspending the devices in order may end with `r`.
pub open spec fn suspend_run(devices: Seq<Shared<dyn DeviceLifecycle>>, r: AxResult<()>) -> bool {
    run_outcome(
        devices.len() as int,
        |i: int| devices[i].obj().suspend_outcome(Ok(())),
        |i: int, error: AxError| devices[i].obj().suspend_outcome(Err(error)),
        r,
    )
}

/// Whether resuming the devices in order may end with `r`.
pub open spec fn resume_run(devices: Seq<Shared<dyn DeviceLifecycle>>, r: AxResult<()>) -> bool {
    run_outcome(
        devices.len() as int,
        |i: int| devices[i].obj().resume_outcome(Ok(())),
        |i: int, error: AxError| devices[i].obj().resume_outcome(Err(error)),
        r,
    )
}

/// A bundle is accepted exactly when each bus has room for its devices, its
/// communication range is acceptable and nothing in it is a repetition. Otherwise
/// the first objection is the error, in the order MMIO, ports, system registers,
/// communication range, repetition.
pub proof fn law_first_objection_refuses_a_bundle(
    lists: DeviceLists,
    bundle: DeviceBundle,
    repeated: bool,
)
    ensures
        ({
            let on_mmio = device::group_placement(
                device::ranges(bundle.mmio@),
                device::ranges(lists.mmio),
            );
            let on_port = device::group_placement(
                device::ranges(bundle.port@),
                device::ranges(lists.port),
            );
            let on_sysreg = device::group_placement(
                device::ranges(bundle.sysreg@),
                device::ranges(lists.sysreg),
            );
            let on_ivc = ivc_verdict(lists.ivc is Some, bundle.ivc_channels@);
            let r = lists.verdict(bundle, repeated);
            &&& r is Ok <==> on_mmio is Ok && on_port is Ok && on_sysreg is Ok && on_ivc is Ok
                && !repeated
            &&& on_mmio is Err ==> r == on_mmio
            &&& on_mmio is Ok && on_port is Err ==> r == on_port
            &&& on_mmio is Ok && on_port is Ok && on_sysreg is Err ==> r == on_sysreg
            &&& on_mmio is Ok && on_port is Ok && on_sysreg is Ok && on_ivc is Err ==> r == on_ivc
            &&& on_mmio is Ok && on_port is Ok && on_sysreg is Ok && on_ivc is Ok && repeated ==> r
                == Err::<(), AxError>(AxError::AlreadyExists)
        }),
{
}

/// A VM has one communication range at most, and it is not empty.
pub proof fn law_one_communication_range(present: bool, channels: Seq<Range<usize>>)
    ensures
        ({
            let r = ivc_verdict(present, channels);
            &&& channels.len() == 0 ==> r is Ok
            &&& channels.len() > 1 || (channels.len() == 1 && present) ==> r == Err::<(), AxError>(
                AxError::AlreadyExists,
            )
            &&& channels.len() == 1 && !present ==> r == (if channels[0].start < channels[0].end {
                Ok::<(), AxError>(())
            } else {
                Err(AxError::InvalidInput)
            })
        }),
{
}

/// A bundle that is accepted adds all of its devices behind the others of their
/// kinds, in order, and its communication range with nothing handed out.
pub proof fn law_accepted_bundle_joins_whole(lists: DeviceLists, bundle: DeviceBundle)
    ensures
        ({
            let after = lists.with_bundle(bundle);
            &&& after.mmio.len() == lists.mmio.len() + bundle.mmio@.len()
            &&& after.mmio.take(lists.mmio.len() as int) == lists.mmio
            &&& after.mmio.skip(lists.mmio.len() as int) == bundle.mmio@
            &&& after.port.take(lists.port.len() as int) == lists.port
            &&& after.port.skip(lists.port.len() as int) == bundle.port@
            &&& after.sysreg.take(lists.sysreg.len() as int) == lists.sysreg
            &&& after.sysreg.skip(lists.sysreg.len() as int) == bundle.sysreg@
            &&& after.pollable.take(lists.pollable.len() as int) == lists.pollable
            &&& after.pollable.skip(lists.pollable.len() as int) == bundle.pollable@
            &&& after.lifecycle.take(lists.lifecycle.len() as int) == lists.lifecycle
            &&& after.lifecycle.skip(lists.lifecycle.len() as int) == bundle.lifecycle@
            &&& bundle.ivc_channels@.len() == 0 ==> after.ivc == lists.ivc
            &&& bundle.ivc_channels@.len() > 0 ==> after.ivc is Some && after.ivc->0.pool
                == bundle.ivc_channels@[0] && after.ivc->0.allocated.len() == 0
        }),
{
    let after = lists.with_bundle(bundle);
    assert(after.mmio.take(lists.mmio.len() as int) =~= lists.mmio);
    assert(after.mmio.skip(lists.mmio.len() as int) =~= bundle.mmio@);
    assert(after.port.take(lists.port.len() as int) =~= lists.port);
    assert(after.port.skip(lists.port.len() as int) =~= bundle.port@);
    assert(after.sysreg.take(lists.sysreg.len() as int) =~= lists.sysreg);
    assert(after.sysreg.skip(lists.sysreg.len() as int) =~= bundle.sysreg@);
    assert(after.pollable.take(lists.pollable.len() as int) =~= lists.pollable);
    assert(after.pollable.skip(lists.pollable.len() as int) =~= bundle.pollable@);
    assert(after.lifecycle.take(lists.lifecycle.len() as int) =~= lists.lifecycle);
    assert(after.lifecycle.skip(lists.lifecycle.len() as int) =~= bundle.lifecycle@);
}

/// Resetting and suspending go through the devices in order and stop at the first
/// that fails, whose error is returned. Success means that all succeeded.
pub proof fn law_lifecycle_runs_stop_at_the_first_failure(
    devices: Seq<Shared<dyn DeviceLifecycle>>,
    reset: AxResult<()>,
    suspended: AxResult<()>,
    resumed: AxResult<()>,
    i: int,
)
    requires
        reset_run(devices, reset),
        suspend_run(devices, suspended),
        resume_run(devices, resumed),
        0 <= i < devices.len(),
    ensures
        reset is Ok ==> devices[i].obj().reset_outcome(Ok(())),
        suspended is Ok ==> devices[i].obj().suspend_outcome(Ok(())),
        resumed is Ok ==> devices[i].obj().resume_outcome(Ok(())),
        reset is Err ==> exists|k: int|
            {
                &&& 0 <= k < devices.len()
                &&& (#[trigger] devices[k]).obj().reset_outcome(Err(reset->Err_0))
                &&& i < k ==> devices[i].obj().reset_outcome(Ok(()))
            },
        suspended is Err ==> exists|k: int|
            {
                &&& 0 <= k < devices.len()
                &&& (#[trigger] devices[k]).obj().suspend_outcome(Err(suspended->Err_0))
                &&& i < k ==> devices[i].obj().suspend_outcome(Ok(()))
            },
        resumed is Err ==> exists|k: int|
            {
                &&& 0 <= k < devices.len()
                &&& (#[trigger] devices[k]).obj().resume_outcome(Err(resumed->Err_0))
                &&& i < k ==> devices[i].obj().resume_outcome(Ok(()))
            },
{
    let resets = |j: int| devices[j].obj().reset_outcome(Ok(()));
    let suspends = |j: int| devices[j].obj().suspend_outcome(Ok(()));
    let resumes = |j: int| devices[j].obj().resume_outcome(Ok(()));
    assert(resets(i) == devices[i].obj().reset_outcome(Ok(())));
    assert(suspends(i) == devices[i].obj().suspend_outcome(Ok(())));
    assert(resumes(i) == devices[i].obj().resume_outcome(Ok(())));
    if let Err(error) = reset {
        let fails = |j: int, e: AxError| devices[j].obj().reset_outcome(Err(e));
        let k = choose|k: int|
            {
                &&& 0 <= k < devices.len()
                &&& #[trigger] fails(k, error)
                &&& forall|j: int| 0 <= j < k ==> #[trigger] resets(j)
            };
        assert(devices[k].obj().reset_outcome(Err(error)));
    }
    if let Err(error) = suspended {
        let fails = |j: int, e: AxError| devices[j].obj().suspend_outcome(Err(e));
        let k = choose|k: int|
            {
                &&& 0 <= k < devices.len()
                &&& #[trigger] fails(k, error)
                &&& forall|j: int| 0 <= j < k ==> #[trigger] suspends(j)
            };
        assert(devices[k].obj().suspend_outcome(Err(error)));
    }
    if let Err(error) = resumed {
        let fails = |j: int, e: AxError| devices[j].obj().resume_outcome(Err(e));
        let k = choose|k: int|
            {
                &&& 0 <= k < devices.len()
                &&& #[trigger] fails(k, error)
                &&& forall|j: int| 0 <= j < k ==> #[trigger] resumes(j)
            };
        assert(devices[k].obj().resume_outcome(Err(error)));
    }
}

/// A channel is a positive number of pages in the communication range that overlaps
/// no other channel. Giving it back afterwards succeeds and leaves the range as it
/// was before.
pub proof fn law_channel_comes_and_goes(
    before: Option<IvcState>,
    between: Option<IvcState>,
    after: Option<IvcState>,
    size: usize,
    addr: GuestPhysAddr,
    r: AxResult<()>,
)
    requires
        before is Some ==> range_alloc::laid_out(before->0.pool, before->0.allocated),
        between is Some ==> range_alloc::laid_out(between->0.pool, between->0.allocated),
        channel_allocated(before, between, size, Ok(addr)),
        channel_released(between, after, addr, size, r),
    ensures
        size > 0 && size % 4096 == 0,
        before is Some,
        before->0.pool.start <= addr.0 && addr.0 + size <= before->0.pool.end,
        forall|i: int|
            0 <= i < before->0.allocated.len() ==> (#[trigger] before->0.allocated[i]).end <= addr.0
                || addr.0 + size <= before->0.allocated[i].start,
        r is Ok,
        after is Some,
        after->0.pool == before->0.pool,
        after->0.allocated == before->0.allocated,
{
    let pool = before->0.pool;
    let pieces = before->0.allocated;
    let range = (addr.0..(addr.0 + size) as usize);
    assert(range_alloc::is_free(pool, pieces, addr.0 as int));
    assert(range_alloc::is_free(pool, pieces, addr.0 + size - 1));
    range_alloc::law_lowest_gap_is_handed_out(
        pool,
        pieces,
        between->0.allocated,
        size,
        Some(range),
        addr.0 as int,
    );
    let at = choose|at: int| #[trigger] range_alloc::inserted(
        pieces,
        between->0.allocated,
        range,
        at,
    );
    assert(between->0.allocated[at] == range);
    let k = choose|k: int|
        0 <= k < between->0.allocated.len() && between->0.allocated[k] == range
            && after->0.allocated == #[trigger] between->0.allocated.remove(k);
    range_alloc::law_free_undoes_allocate(pool, pieces, at, range, k);
}

/// Building keeps the devices that are there: those of every list stay at the front,
/// in order.
pub proof fn law_building_keeps_earlier_devices(
    lists: DeviceLists,
    after: DeviceLists,
    configs: Seq<EmulatedDeviceConfig>,
    factories: Seq<Shared<dyn DeviceFactory>>,
    resolver: Borrowed<'_, dyn IrqResolver>,
)
    requires
        lists.all_built(after, configs, factories, resolver),
    ensures
        lists.mmio.is_prefix_of(after.mmio),
        lists.port.is_prefix_of(after.port),
        lists.sysreg.is_prefix_of(after.sysreg),
        lists.pollable.is_prefix_of(after.pollable),
        lists.lifecycle.is_prefix_of(after.lifecycle),
        lists.ivc is Some ==> after.ivc == lists.ivc,
    decreases configs.len(),
{
    if configs.len() > 0 {
        let before = choose|before: DeviceLists|
            {
                &&& lists.all_built(before, configs.drop_last(), factories, resolver)
                &&& #[trigger] before.built(after, configs.last(), factories, resolver, Ok(()))
            };
        law_building_keeps_earlier_devices(
            lists,
            before,
            configs.drop_last(),
            factories,
            resolver,
        );
        let bundle = choose|bundle: AxResult<DeviceBundle>|
            {
                &&& #[trigger] factory::factories_outcome(
                    factories,
                    configs.last(),
                    resolver,
                    bundle,
                )
                &&& match bundle {
                    Ok(bundle) => before.joined(after, bundle, Ok(())),
                    Err(error) => false,
                }
            };
        law_accepted_bundle_joins_whole(before, bundle->Ok_0);
    }
}

} // verus!
