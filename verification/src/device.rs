//! The devices of one bus.

use crate::access;
use crate::access::{AccessRecord, Attached};
use crate::bus::{BusAccess, BusOperation};
use crate::device_ops;
use crate::device_ops::BaseDeviceOps;
use crate::error;
use crate::error::{AxError, AxResult};
use crate::range::DeviceAddrRange;
use crate::shared::Shared;
use crate::types::AccessWidth;
use vstd::prelude::*;

verus! {

/// The ranges of the devices.
pub open spec fn ranges<R: DeviceAddrRange>(devices: Seq<Shared<dyn BaseDeviceOps<R>>>) -> Seq<R> {
    Seq::new(devices.len(), |i: int| devices[i].obj().spec_address_range())
}

/// The verdict of the first range that collides with `wanted`: the same range
/// exists already, any other collision is a use of its addresses.
pub open spec fn collision<R: DeviceAddrRange>(wanted: R, taken: Seq<R>) -> AxResult<()>
    decreases taken.len(),
{
    if taken.len() == 0 {
        Ok(())
    } else if taken[0] == wanted {
        Err(AxError::AlreadyExists)
    } else if wanted.meets(taken[0]) {
        Err(AxError::AddrInUse)
    } else {
        collision(wanted, taken.drop_first())
    }
}

/// The verdict on one range beside those that are taken.
pub open spec fn placement<R: DeviceAddrRange>(wanted: R, taken: Seq<R>) -> AxResult<()> {
    if wanted.is_void() {
        Err(AxError::InvalidInput)
    } else {
        collision(wanted, taken)
    }
}

/// The verdict on a group of ranges, each judged beside those that are taken
/// and those before it in the group.
pub open spec fn group_placement<R: DeviceAddrRange>(wanted: Seq<R>, taken: Seq<R>) -> AxResult<()>
    decreases wanted.len(),
{
    if wanted.len() == 0 {
        Ok(())
    } else if placement(wanted[0], taken) is Err {
        placement(wanted[0], taken)
    } else {
        group_placement(wanted.drop_first(), taken.push(wanted[0]))
    }
}

/// The verdict on a group of one range is the verdict on that range, and there
/// is nothing to object to an empty group.
pub proof fn lemma_small_groups<R: DeviceAddrRange>(wanted: Seq<R>, taken: Seq<R>)
    ensures
        wanted.len() == 0 ==> group_placement(wanted, taken) == Ok::<(), AxError>(()),
        wanted.len() == 1 ==> group_placement(wanted, taken) == placement(wanted[0], taken),
{
    if wanted.len() == 1 {
        assert(wanted.drop_first() =~= Seq::<R>::empty());
        reveal_with_fuel(group_placement, 2);
        error::lemma_plain_success(placement(wanted[0], taken));
    }
}

/// A range that found its place collides with none of those that are taken.
pub proof fn lemma_placed_collides_with_none<R: DeviceAddrRange>(wanted: R, taken: Seq<R>, i: int)
    requires
        collision(wanted, taken) is Ok,
        0 <= i < taken.len(),
    ensures
        !wanted.meets(taken[i]),
        wanted != taken[i],
    decreases taken.len(),
{
    if i > 0 {
        lemma_placed_collides_with_none(wanted, taken.drop_first(), i - 1);
        assert(taken.drop_first()[i - 1] == taken[i]);
    }
}

/// A range is refused for its addresses only where it shares one with a range
/// that is taken.
pub proof fn law_refused_range_shares_an_address<R: DeviceAddrRange>(wanted: R, taken: Seq<R>)
    requires
        forall|i: int| 0 <= i < taken.len() ==> !(#[trigger] taken[i]).is_void(),
        placement(wanted, taken) == Err::<(), AxError>(AxError::AddrInUse),
    ensures
        exists|i: int, addr: R::Addr|
            0 <= i < taken.len() && wanted.holds(addr) && #[trigger] taken[i].holds(addr),
    decreases taken.len(),
{
    let rest = taken.drop_first();
    if wanted.meets(taken[0]) {
        let addr = wanted.lemma_meets_common_address(taken[0]);
        assert(taken[0].holds(addr));
    } else {
        assert forall|i: int| 0 <= i < rest.len() implies !(#[trigger] rest[i]).is_void() by {
            assert(rest[i] == taken[i + 1]);
        }
        law_refused_range_shares_an_address(wanted, rest);
        let (i, addr) = choose|i: int, addr: R::Addr|
            0 <= i < rest.len() && wanted.holds(addr) && #[trigger] rest[i].holds(addr);
        assert(taken[i + 1].holds(addr));
    }
}

/// A group that was found acceptable can join the devices of a bus: all of
/// them stay separate.
pub proof fn law_accepted_group_stays_separate<R: DeviceAddrRange>(
    devices: Seq<Shared<dyn BaseDeviceOps<R>>>,
    group: Seq<Shared<dyn BaseDeviceOps<R>>>,
)
    requires
        device_ops::separate(devices),
        group_placement(ranges(group), ranges(devices)) is Ok,
    ensures
        device_ops::separate(devices + group),
    decreases group.len(),
{
    if group.len() == 0 {
        assert(devices + group =~= devices);
    } else {
        let first = group[0];
        let extended = devices.push(first);
        assert(ranges(group)[0] == first.obj().spec_address_range());
        assert forall|i: int| 0 <= i < devices.len() implies !first.obj().spec_address_range().meets(
            (#[trigger] devices[i]).obj().spec_address_range(),
        ) by {
            lemma_placed_collides_with_none(
                first.obj().spec_address_range(),
                ranges(devices),
                i,
            );
        }
        assert(extended.drop_last() =~= devices);
        device_ops::lemma_separate_extended(devices, extended);
        assert(ranges(extended) =~= ranges(devices).push(first.obj().spec_address_range()));
        assert(ranges(group.drop_first()) =~= ranges(group).drop_first());
        law_accepted_group_stays_separate(extended, group.drop_first());
        assert(extended + group.drop_first() =~= devices + group);
    }
}

/// A set of emulated devices that can be accessed by a specific address range
/// type.
#[verifier::reject_recursive_types(R)]
pub struct AxEmuDevices<R: DeviceAddrRange> {
    emu_devices: Vec<Shared<dyn BaseDeviceOps<R>>>,
}

impl<R: DeviceAddrRange> View for AxEmuDevices<R> {
    type V = Seq<Shared<dyn BaseDeviceOps<R>>>;

    closed spec fn view(&self) -> Seq<Shared<dyn BaseDeviceOps<R>>> {
        self.emu_devices@
    }
}

impl<R: DeviceAddrRange + 'static> AxEmuDevices<R> {
    /// Creates an empty set.
    pub fn new() -> (r: Self)
        ensures
            r@ == Seq::<Shared<dyn BaseDeviceOps<R>>>::empty(),
    {
        AxEmuDevices { emu_devices: Vec::new() }
    }

    /// Judges `dev` beside the devices of the set and the first `count` of a
    /// group. A device that is registered already has the range it had, so it
    /// is recognized by its range.
    fn validate_dev_against(
        &self,
        dev: &Shared<dyn BaseDeviceOps<R>>,
        group: &Vec<Shared<dyn BaseDeviceOps<R>>>,
        count: usize,
    ) -> (r: AxResult<()>)
        requires
            count <= group@.len(),
        ensures
            r == placement(
                dev.obj().spec_address_range(),
                ranges(self@) + ranges(group@).take(count as int),
            ),
    {
        let new_range = dev.get().address_range();
        let ghost taken = ranges(self@) + ranges(group@).take(count as int);
        if new_range.is_empty() {
            return Err(AxError::InvalidInput);
        }
        let mut i: usize = 0;
        let total: usize = self.emu_devices.len();
        assert(taken.skip(0) =~= taken);
        while i < total
            invariant
                i <= total == self@.len(),
                count <= group@.len(),
                taken == ranges(self@) + ranges(group@).take(count as int),
                new_range == dev.obj().spec_address_range(),
                !new_range.is_void(),
                collision(new_range, taken) == collision(new_range, taken.skip(i as int)),
            decreases total - i,
        {
            let existing_range = self.emu_devices[i].get().address_range();
            proof {
                assert(taken.skip(i as int)[0] == existing_range);
                assert(taken.skip(i as int).drop_first() =~= taken.skip(i + 1));
            }
            if self.emu_devices[i].is_same(dev) {
                return Err(AxError::AlreadyExists);
            }
            if new_range.same_as(&existing_range) {
                return Err(AxError::AlreadyExists);
            }
            if new_range.overlaps(&existing_range) {
                return Err(AxError::AddrInUse);
            }
            i = i + 1;
        }
        let mut k: usize = 0;
        while k < count
            invariant
                k <= count <= group@.len(),
                total == self@.len(),
                taken == ranges(self@) + ranges(group@).take(count as int),
                new_range == dev.obj().spec_address_range(),
                !new_range.is_void(),
                collision(new_range, taken) == collision(new_range, taken.skip(total + k)),
            decreases count - k,
        {
            let existing_range = group[k].get().address_range();
            proof {
                assert(taken.skip(total + k)[0] == existing_range);
                assert(taken.skip(total + k).drop_first() =~= taken.skip(total + k + 1));
            }
            if group[k].is_same(dev) {
                return Err(AxError::AlreadyExists);
            }
            if new_range.same_as(&existing_range) {
                return Err(AxError::AlreadyExists);
            }
            if new_range.overlaps(&existing_range) {
                return Err(AxError::AddrInUse);
            }
            k = k + 1;
        }
        Ok(())
    }

    /// Validates a group of devices without modifying this set.
    pub(crate) fn validate_devices(&self, devices: &Vec<Shared<dyn BaseDeviceOps<R>>>) -> (r:
        AxResult<()>)
        ensures
            r == group_placement(ranges(devices@), ranges(self@)),
    {
        let ghost wanted = ranges(devices@);
        let ghost taken = ranges(self@);
        let mut index: usize = 0;
        proof {
            assert(wanted.skip(0) =~= wanted);
            assert(taken + wanted.take(0) =~= taken);
        }
        while index < devices.len()
            invariant
                index <= devices@.len(),
                wanted == ranges(devices@),
                taken == ranges(self@),
                group_placement(wanted, taken) == group_placement(
                    wanted.skip(index as int),
                    taken + wanted.take(index as int),
                ),
            decreases devices@.len() - index,
        {
            match self.validate_dev_against(&devices[index], devices, index) {
                Ok(()) => {},
                Err(error) => {
                    return Err(error);
                },
            }
            proof {
                assert(wanted.skip(index as int).drop_first() =~= wanted.skip(index + 1));
                assert((taken + wanted.take(index as int)).push(wanted[index as int]) =~= taken
                    + wanted.take(index + 1));
            }
            index = index + 1;
        }
        Ok(())
    }

    /// Adds a device to the set after validating its range.
    pub fn add_dev(&mut self, dev: Shared<dyn BaseDeviceOps<R>>) -> (r: AxResult<()>)
        ensures
            r == placement(dev.obj().spec_address_range(), ranges(old(self)@)),
            final(self)@ == (if r is Ok {
                old(self)@.push(dev)
            } else {
                old(self)@
            }),
            device_ops::separate(old(self)@) ==> device_ops::separate(final(self)@),
    {
        let mut group: Vec<Shared<dyn BaseDeviceOps<R>>> = Vec::new();
        group.push(dev.clone());
        proof {
            lemma_small_groups(ranges(group@), ranges(self@));
            error::lemma_plain_success(placement(ranges(group@)[0], ranges(self@)));
        }
        match self.validate_devices(&group) {
            Ok(()) => {},
            Err(error) => {
                return Err(error);
            },
        }
        proof {
            if device_ops::separate(self@) {
                law_accepted_group_stays_separate(self@, group@);
            }
            assert(self@ + group@ =~= self@.push(dev));
        }
        self.emu_devices.push(dev);
        Ok(())
    }

    pub(crate) fn commit_devices(&mut self, devices: Vec<Shared<dyn BaseDeviceOps<R>>>)
        ensures
            final(self)@ == old(self)@ + devices@,
    {
        let mut devices = devices;
        self.emu_devices.append(&mut devices);
    }

    fn find_position(&self, addr: R::Addr) -> (r: Option<usize>)
        ensures
            match r {
                Some(i) => device_ops::owner_at(self@, addr, i as int),
                None => device_ops::unowned(self@, addr),
            },
    {
        let mut i: usize = 0;
        while i < self.emu_devices.len()
            invariant
                i <= self@.len(),
                forall|j: int|
                    0 <= j < i ==> !(#[trigger] self@[j]).obj().spec_address_range().holds(addr),
            decreases self@.len() - i,
        {
            if self.emu_devices[i].get().address_range().contains(addr) {
                return Some(i);
            }
            i = i + 1;
        }
        None
    }

    /// Finds a device by address.
    pub fn find_dev(&self, addr: R::Addr) -> (r: Option<Shared<dyn BaseDeviceOps<R>>>)
        ensures
            match r {
                Some(device) => exists|i: int|
                    #[trigger] device_ops::owner_at(self@, addr, i) && device == self@[i],
                None => device_ops::unowned(self@, addr),
            },
    {
        match self.find_position(addr) {
            Some(i) => Some(self.emu_devices[i].clone()),
            None => None,
        }
    }

    /// Iterates over the devices in the set.
    pub fn iter(&self) -> (r: core::slice::Iter<'_, Shared<dyn BaseDeviceOps<R>>>)
        ensures
            vstd::std_specs::iter::IteratorSpec::remaining(&r).unref() == self@,
    {
        self.emu_devices.as_slice().iter()
    }

    /// Returns the devices in the set for replacement in place.
    pub fn iter_mut(&mut self) -> (r: &mut [Shared<dyn BaseDeviceOps<R>>])
        ensures
            r@ == old(self)@,
            final(self)@ == final(r)@,
    {
        self.emu_devices.as_mut_slice()
    }

    /// Reads through the device that owns the address.
    pub(crate) fn dispatch_read(
        &self,
        addr: R::Addr,
        width: AccessWidth,
        record: &mut AccessRecord,
    ) -> (r: AxResult<usize>)
        ensures
            device_ops::read_through(self@, addr, width, r),
            access::handled_once(
                self@,
                addr,
                (BusAccess { address: R::on_bus(addr), width, operation: BusOperation::Read }),
                old(record)@,
                final(record)@,
                device_ops::read_response(r),
            ),
    {
        match self.find_position(addr) {
            Some(i) => {
                assert(device_ops::owner_at(self@, addr, i as int));
                Attached::new(self.emu_devices[i].clone()).read(i, addr, width, record)
            },
            None => Err(AxError::NotFound),
        }
    }

    /// Writes through the device that owns the address.
    pub(crate) fn dispatch_write(
        &self,
        addr: R::Addr,
        width: AccessWidth,
        value: usize,
        record: &mut AccessRecord,
    ) -> (r: AxResult<()>)
        ensures
            device_ops::write_through(self@, addr, width, value, r),
            access::handled_once(
                self@,
                addr,
                (BusAccess {
                    address: R::on_bus(addr),
                    width,
                    operation: BusOperation::Write { value },
                }),
                old(record)@,
                final(record)@,
                device_ops::write_response(r),
            ),
    {
        match self.find_position(addr) {
            Some(i) => {
                assert(device_ops::owner_at(self@, addr, i as int));
                Attached::new(self.emu_devices[i].clone()).write(i, addr, width, value, record)
            },
            None => Err(AxError::NotFound),
        }
    }
}

impl<R: DeviceAddrRange + 'static> Default for AxEmuDevices<R> {
    fn default() -> (r: Self)
        ensures
            r@ == Seq::<Shared<dyn BaseDeviceOps<R>>>::empty(),
    {
        AxEmuDevices::new()
    }
}

/// A range finds its place exactly when it holds an address and shares none with
/// the ranges that are taken. A void range is invalid input.
pub proof fn law_placement_goes_by_addresses<R: DeviceAddrRange>(wanted: R, taken: Seq<R>)
    requires
        forall|i: int| 0 <= i < taken.len() ==> !(#[trigger] taken[i]).is_void(),
    ensures
        placement(wanted, taken) == Err::<(), AxError>(AxError::InvalidInput) <==> (forall|
            addr: R::Addr,
        |
            !#[trigger] wanted.holds(addr)),
        placement(wanted, taken) is Ok <==> (exists|addr: R::Addr| #[trigger] wanted.holds(addr))
            && (forall|i: int, addr: R::Addr|
            0 <= i < taken.len() ==> !(wanted.holds(addr) && #[trigger] taken[i].holds(addr))),
{
    if wanted.is_void() {
        assert forall|addr: R::Addr| !#[trigger] wanted.holds(addr) by {
            wanted.lemma_void_holds_nothing(addr);
        }
    } else {
        let held = wanted.lemma_not_void_holds();
        lemma_collision_kinds(wanted, taken);
        if collision(wanted, taken) is Ok {
            assert forall|i: int, addr: R::Addr| 0 <= i < taken.len() implies !(wanted.holds(addr)
                && #[trigger] taken[i].holds(addr)) by {
                lemma_placed_collides_with_none(wanted, taken, i);
                if wanted.holds(addr) && taken[i].holds(addr) {
                    wanted.lemma_common_address_meets(taken[i], addr);
                }
            }
        } else {
            lemma_refused_shares(wanted, taken);
        }
    }
}

proof fn lemma_collision_kinds<R: DeviceAddrRange>(wanted: R, taken: Seq<R>)
    ensures
        collision(wanted, taken) != Err::<(), AxError>(AxError::InvalidInput),
    decreases taken.len(),
{
    if taken.len() > 0 {
        lemma_collision_kinds(wanted, taken.drop_first());
    }
}

proof fn lemma_refused_shares<R: DeviceAddrRange>(wanted: R, taken: Seq<R>)
    requires
        !wanted.is_void(),
        forall|i: int| 0 <= i < taken.len() ==> !(#[trigger] taken[i]).is_void(),
        collision(wanted, taken) is Err,
    ensures
        exists|i: int, addr: R::Addr|
            0 <= i < taken.len() && wanted.holds(addr) && #[trigger] taken[i].holds(addr),
    decreases taken.len(),
{
    let rest = taken.drop_first();
    if taken[0] == wanted {
        let addr = wanted.lemma_not_void_holds();
        assert(taken[0].holds(addr));
    } else if wanted.meets(taken[0]) {
        let addr = wanted.lemma_meets_common_address(taken[0]);
        assert(taken[0].holds(addr));
    } else {
        assert forall|i: int| 0 <= i < rest.len() implies !(#[trigger] rest[i]).is_void() by {
            assert(rest[i] == taken[i + 1]);
        }
        lemma_refused_shares(wanted, rest);
        let (i, addr) = choose|i: int, addr: R::Addr|
            0 <= i < rest.len() && wanted.holds(addr) && #[trigger] rest[i].holds(addr);
        assert(taken[i + 1].holds(addr));
    }
}

/// The first range that shares an address decides the error: it exists already if
/// it is the same range, and is in use otherwise.
pub proof fn law_first_collision_names_the_error<R: DeviceAddrRange>(
    wanted: R,
    taken: Seq<R>,
    i: int,
    common: R::Addr,
)
    requires
        0 <= i < taken.len(),
        wanted.holds(common),
        taken[i].holds(common),
        forall|j: int| 0 <= j < i ==> !(#[trigger] taken[j]).is_void(),
        forall|j: int, addr: R::Addr|
            0 <= j < i ==> !(wanted.holds(addr) && #[trigger] taken[j].holds(addr)),
    ensures
        placement(wanted, taken) == (if taken[i] == wanted {
            Err::<(), AxError>(AxError::AlreadyExists)
        } else {
            Err(AxError::AddrInUse)
        }),
    decreases i,
{
    if wanted.is_void() {
        wanted.lemma_void_holds_nothing(common);
    }
    if i == 0 {
        wanted.lemma_common_address_meets(taken[0], common);
    } else {
        let rest = taken.drop_first();
        assert(!(wanted.holds(common) && taken[0].holds(common)));
        if wanted.meets(taken[0]) {
            let addr = wanted.lemma_meets_common_address(taken[0]);
            assert(!(wanted.holds(addr) && taken[0].holds(addr)));
        }
        assert forall|j: int| 0 <= j < i - 1 implies !(#[trigger] rest[j]).is_void() by {
            assert(rest[j] == taken[j + 1]);
        }
        assert forall|j: int, addr: R::Addr| 0 <= j < i - 1 implies !(wanted.holds(addr)
            && #[trigger] rest[j].holds(addr)) by {
            assert(rest[j] == taken[j + 1]);
            assert(!(wanted.holds(addr) && taken[j + 1].holds(addr)));
        }
        assert(rest[i - 1] == taken[i]);
        law_first_collision_names_the_error(wanted, rest, i - 1, common);
    }
}

/// A group is judged one range after the other, each beside the ranges that are
/// taken and those before it: the first that does not find its place decides, and
/// without one the group is accepted.
pub proof fn law_group_is_judged_in_order<R: DeviceAddrRange>(
    wanted: Seq<R>,
    taken: Seq<R>,
    n: int,
)
    requires
        0 <= n <= wanted.len(),
        forall|i: int|
            0 <= i < n ==> placement(#[trigger] wanted[i], taken + wanted.take(i)) is Ok,
        n < wanted.len() ==> placement(wanted[n], taken + wanted.take(n)) is Err,
    ensures
        group_placement(wanted, taken) == (if n < wanted.len() {
            placement(wanted[n], taken + wanted.take(n))
        } else {
            Ok(())
        }),
    decreases wanted.len(),
{
    if wanted.len() > 0 {
        assert(taken + wanted.take(0) =~= taken);
        assert(n > 0 ==> placement(wanted[0], taken + wanted.take(0)) is Ok);
        if n > 0 {
            let rest = wanted.drop_first();
            let more = taken.push(wanted[0]);
            assert forall|i: int| 0 <= i < n - 1 implies placement(
                #[trigger] rest[i],
                more + rest.take(i),
            ) is Ok by {
                assert(rest[i] == wanted[i + 1]);
                assert(more + rest.take(i) =~= taken + wanted.take(i + 1));
            }
            if n < wanted.len() {
                assert(rest[n - 1] == wanted[n]);
                assert(more + rest.take(n - 1) =~= taken + wanted.take(n));
            }
            law_group_is_judged_in_order(rest, more, n - 1);
        }
    }
}

} // verus!
