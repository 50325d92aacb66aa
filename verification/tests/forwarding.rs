use axvirt::error::{AxError, AxResult};
use axvirt::irq::line::IrqSink;
use axvirt::irq::router::MsiRoute;
use axvirt::irq::{InterruptControllerOps, InterruptDelivery, InterruptFabric, PendingInterrupt};
use axvirt::runtime::aarch64_irq::DrainReport;
use axvirt::runtime::x86_irq::{
    disable_ioapic_irq_forwarding_for_vm, drain_pending_ioapic_irqs, drain_routed_irqs,
    enable_ioapic_irq_forwarding, forward_host_vector, forward_passthrough_irq_from_vmexit,
    handle_eoi, ioapic_irq_forwarding_handler, ioapic_irq_hook_registered, ForwardedIrq,
    ForwardingStart, IoApicForwarding, IrqActions, IrqReturn,
};
use axvirt::shared::{Lent, Shared};
use axvirt::types::{
    InterruptTriggerMode, InterruptVector, IrqLineId, VCpuId, VMInterruptMode,
};
use std::sync::Arc;

struct Request<F>(F);

impl<F: FnMut(usize) -> AxResult<usize>> IrqActions for Request<F> {
    fn request(&mut self, vector: usize) -> AxResult<usize> {
        (self.0)(vector)
    }
}

fn request_with<F: FnMut(usize) -> AxResult<usize>>(f: F) -> Request<F> {
    Request(f)
}

struct Quiet;

impl IrqSink for Quiet {
    fn validate_line(&self, _line: IrqLineId, _trigger: InterruptTriggerMode) -> AxResult<()> {
        Ok(())
    }

    fn set_level(&self, _line: IrqLineId, _asserted: bool) -> AxResult<()> {
        Ok(())
    }

    fn pulse(&self, _line: IrqLineId) -> AxResult<()> {
        Ok(())
    }
}

struct Picky;

impl InterruptControllerOps for Picky {
    fn inject_msi(&self, _route: MsiRoute) -> AxResult<()> {
        Err(AxError::Unsupported)
    }

    fn eoi(&self, vcpu_id: VCpuId, _vector: InterruptVector) -> AxResult<()> {
        if vcpu_id == 0 {
            Ok(())
        } else {
            Err(AxError::BadState)
        }
    }

    fn forward_host_irq(&self, host_irq: usize) -> AxResult<()> {
        if host_irq == 5 {
            Err(AxError::NotFound)
        } else {
            Ok(())
        }
    }

    fn drain_pending(
        &self,
        vcpu_id: VCpuId,
        deliver: &mut Lent<'_, dyn InterruptDelivery>,
    ) -> AxResult<()> {
        deliver.get().deliver(PendingInterrupt {
            vector: vcpu_id,
            trigger: InterruptTriggerMode::EdgeTriggered,
        })
    }
}

fn fabric() -> InterruptFabric {
    let sink: Arc<dyn IrqSink> = Arc::new(Quiet);
    let controller: Arc<dyn InterruptControllerOps> = Arc::new(Picky);
    InterruptFabric::with_controller(
        VMInterruptMode::Passthrough,
        Shared::new(sink),
        Shared::new(controller),
    )
    .unwrap()
}

const PASSTHROUGH: VMInterruptMode = VMInterruptMode::Passthrough;

#[test]
fn forwarding_is_enabled_for_one_vm() {
    let fabric = fabric();
    let mut forwarding = IoApicForwarding::new();
    let mut asked = Vec::new();
    let mut actions = request_with(|vector| {
        asked.push(vector);
        if vector == 0x21 {
            Err(AxError::ResourceBusy)
        } else {
            Ok(vector + 100)
        }
    });
    let report =
        enable_ioapic_irq_forwarding(&mut forwarding, 7, PASSTHROUGH, &fabric, &mut actions);
    assert_eq!(report.start, ForwardingStart::Enabled(23));
    assert_eq!(report.requests.len(), 24);
    assert_eq!(report.requests[1], Some(Err(AxError::ResourceBusy)));
    assert_eq!(asked, (0x20..0x38).collect::<Vec<usize>>());
    assert!(ioapic_irq_hook_registered(&forwarding, 0x20));
    assert!(!ioapic_irq_hook_registered(&forwarding, 0x21));
    assert!(!ioapic_irq_hook_registered(&forwarding, 0x38));

    let mut refuse = request_with(|_| panic!("no further request is due"));
    let again =
        enable_ioapic_irq_forwarding(&mut forwarding, 7, PASSTHROUGH, &fabric, &mut refuse);
    assert_eq!(again.start, ForwardingStart::AlreadyEnabled);
    let other =
        enable_ioapic_irq_forwarding(&mut forwarding, 8, PASSTHROUGH, &fabric, &mut refuse);
    assert_eq!(other.start, ForwardingStart::OwnedBy(7));
    let emulated = enable_ioapic_irq_forwarding(
        &mut forwarding,
        7,
        VMInterruptMode::Emulated,
        &fabric,
        &mut refuse,
    );
    assert_eq!(emulated.start, ForwardingStart::NotTaken);

    disable_ioapic_irq_forwarding_for_vm(&mut forwarding, 8);
    assert_eq!(
        ioapic_irq_forwarding_handler(&mut forwarding, 0x20),
        IrqReturn::Handled
    );
    disable_ioapic_irq_forwarding_for_vm(&mut forwarding, 7);
    assert_eq!(
        ioapic_irq_forwarding_handler(&mut forwarding, 0x20),
        IrqReturn::Unhandled
    );
    let taken =
        enable_ioapic_irq_forwarding(&mut forwarding, 8, PASSTHROUGH, &fabric, &mut refuse);
    assert_eq!(taken.start, ForwardingStart::AlreadyEnabled);
    assert!(drain_pending_ioapic_irqs(&mut forwarding, 8, PASSTHROUGH, &fabric).is_empty());
}

#[test]
fn forwarding_without_actions_is_given_up() {
    let fabric = fabric();
    let mut forwarding = IoApicForwarding::new();
    let mut busy = request_with(|_| Err(AxError::ResourceBusy));
    let report = enable_ioapic_irq_forwarding(&mut forwarding, 7, PASSTHROUGH, &fabric, &mut busy);
    assert_eq!(report.start, ForwardingStart::NothingRegistered);
    assert_eq!(
        ioapic_irq_forwarding_handler(&mut forwarding, 0x20),
        IrqReturn::Unhandled
    );
    let mut ready = request_with(Ok);
    let other = enable_ioapic_irq_forwarding(&mut forwarding, 8, PASSTHROUGH, &fabric, &mut ready);
    assert_eq!(other.start, ForwardingStart::Enabled(24));
}

#[test]
fn recorded_interrupts_are_forwarded_once_in_order() {
    let fabric = fabric();
    let mut forwarding = IoApicForwarding::new();
    let mut ready = request_with(Ok);
    enable_ioapic_irq_forwarding(&mut forwarding, 7, PASSTHROUGH, &fabric, &mut ready);
    for vector in [0x37, 0x25, 0x37, 0x22] {
        assert_eq!(
            ioapic_irq_forwarding_handler(&mut forwarding, vector),
            IrqReturn::Handled
        );
    }
    assert_eq!(
        ioapic_irq_forwarding_handler(&mut forwarding, 0x38),
        IrqReturn::Unhandled
    );
    assert!(drain_pending_ioapic_irqs(&mut forwarding, 8, PASSTHROUGH, &fabric).is_empty());
    assert_eq!(
        drain_pending_ioapic_irqs(&mut forwarding, 7, PASSTHROUGH, &fabric),
        vec![
            ForwardedIrq { gsi: 2, result: Ok(()) },
            ForwardedIrq { gsi: 5, result: Err(AxError::NotFound) },
            ForwardedIrq { gsi: 23, result: Ok(()) },
        ]
    );
    assert!(drain_pending_ioapic_irqs(&mut forwarding, 7, PASSTHROUGH, &fabric).is_empty());
}

#[test]
fn exits_forward_what_no_action_records() {
    let fabric = fabric();
    let mut forwarding = IoApicForwarding::new();
    let exit = |forwarding: &IoApicForwarding, mode, vector| {
        forward_passthrough_irq_from_vmexit(forwarding, mode, &fabric, vector)
    };
    assert_eq!(exit(&forwarding, PASSTHROUGH, 0x22), Some(Ok(())));
    assert_eq!(
        exit(&forwarding, PASSTHROUGH, 0x25),
        Some(Err(AxError::NotFound))
    );
    assert_eq!(exit(&forwarding, PASSTHROUGH, 0x20), None);
    assert_eq!(exit(&forwarding, PASSTHROUGH, 0x38), None);
    assert_eq!(exit(&forwarding, VMInterruptMode::Emulated, 0x22), None);
    let mut ready = request_with(Ok);
    enable_ioapic_irq_forwarding(&mut forwarding, 7, PASSTHROUGH, &fabric, &mut ready);
    assert_eq!(exit(&forwarding, PASSTHROUGH, 0x22), None);
    assert_eq!(forward_host_vector(&fabric, 0x22), Some(Ok(())));
    assert_eq!(forward_host_vector(&fabric, 0x1f), None);
}

struct Stubborn(AxError);

impl InterruptDelivery for Stubborn {
    fn deliver(&mut self, _interrupt: PendingInterrupt) -> AxResult<()> {
        Err(self.0)
    }
}

struct Willing(usize);

impl InterruptDelivery for Willing {
    fn deliver(&mut self, interrupt: PendingInterrupt) -> AxResult<()> {
        self.0 = interrupt.vector;
        Ok(())
    }
}

#[test]
fn routed_interrupts_are_drained_and_reported() {
    let fabric = fabric();
    let mut willing = Willing(0);
    assert_eq!(
        drain_routed_irqs(&fabric, 3, &mut Lent::new(&mut willing as &mut dyn InterruptDelivery)),
        Ok(())
    );
    assert_eq!(willing.0, 3);
    let mut full = Stubborn(AxError::WouldBlock);
    assert_eq!(
        axvirt::runtime::aarch64_irq::drain_routed_irqs(
            &fabric,
            3,
            &mut Lent::new(&mut full as &mut dyn InterruptDelivery)
        ),
        DrainReport::ListRegistersFull
    );
    let mut broken = Stubborn(AxError::BadState);
    assert_eq!(
        axvirt::runtime::aarch64_irq::drain_routed_irqs(
            &fabric,
            3,
            &mut Lent::new(&mut broken as &mut dyn InterruptDelivery)
        ),
        DrainReport::Failed(AxError::BadState)
    );
    assert_eq!(
        axvirt::runtime::aarch64_irq::drain_routed_irqs(
            &fabric,
            4,
            &mut Lent::new(&mut willing as &mut dyn InterruptDelivery)
        ),
        DrainReport::Drained
    );
    assert_eq!(handle_eoi(&fabric, 0, 1), Ok(()));
    assert_eq!(handle_eoi(&fabric, 1, 1), Err(AxError::BadState));
}
