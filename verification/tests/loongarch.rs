use axvirt::error::{AxError, AxResult};
use axvirt::irq::line::{IrqResolver, IrqSink};
use axvirt::irq::loongarch::{
    configure, LoongArchBackendHandles, LoongArchInterruptBackend, DEVICE_IRQ_END,
    DEVICE_IRQ_START,
};
use axvirt::irq::router::MsiRoute;
use axvirt::irq::{InterruptControllerOps, InterruptDelivery, InterruptFabric, PendingInterrupt};
use axvirt::resource::MsiMessage;
use axvirt::shared::{Lent, Shared};
use axvirt::types::{
    InterruptTriggerMode, InterruptVector, IrqLineId, VCpuId, VMInterruptMode, BSP_VCPU_ID,
};
use std::sync::{Arc, Mutex};

struct Deliver<F>(F);

impl<F: FnMut(PendingInterrupt) -> AxResult<()>> InterruptDelivery for Deliver<F> {
    fn deliver(&mut self, interrupt: PendingInterrupt) -> AxResult<()> {
        (self.0)(interrupt)
    }
}

fn deliver_with<F: FnMut(PendingInterrupt) -> AxResult<()>>(f: F) -> Deliver<F> {
    Deliver(f)
}

struct Locked(Mutex<LoongArchInterruptBackend>);

impl IrqSink for Locked {
    fn validate_line(&self, line: IrqLineId, trigger: InterruptTriggerMode) -> AxResult<()> {
        self.0.lock().unwrap().validate_line(line, trigger)
    }

    fn set_level(&self, line: IrqLineId, asserted: bool) -> AxResult<()> {
        self.0.lock().unwrap().set_level(line, asserted)
    }

    fn pulse(&self, line: IrqLineId) -> AxResult<()> {
        self.0.lock().unwrap().pulse(line)
    }
}

impl InterruptControllerOps for Locked {
    fn inject_msi(&self, route: MsiRoute) -> AxResult<()> {
        self.0.lock().unwrap().inject_msi(route)
    }

    fn eoi(&self, vcpu_id: VCpuId, vector: InterruptVector) -> AxResult<()> {
        self.0.lock().unwrap().eoi(vcpu_id, vector)
    }

    fn forward_host_irq(&self, host_irq: usize) -> AxResult<()> {
        self.0.lock().unwrap().forward_host_irq(host_irq)
    }

    fn drain_pending(
        &self,
        vcpu_id: VCpuId,
        deliver: &mut Lent<'_, dyn InterruptDelivery>,
    ) -> AxResult<()> {
        self.0.lock().unwrap().drain_pending(vcpu_id, deliver.get())
    }
}

fn locked(vcpu_count: usize) -> Arc<Locked> {
    Arc::new(Locked(Mutex::new(
        LoongArchInterruptBackend::new(vcpu_count).unwrap(),
    )))
}

fn sink(backend: &Arc<Locked>) -> Shared<dyn IrqSink> {
    let sink: Arc<dyn IrqSink> = backend.clone();
    Shared::new(sink)
}

fn controller(backend: &Arc<Locked>) -> Shared<dyn InterruptControllerOps> {
    let controller: Arc<dyn InterruptControllerOps> = backend.clone();
    Shared::new(controller)
}

fn drain(backend: &Arc<Locked>, vcpu_id: VCpuId) -> Vec<PendingInterrupt> {
    let mut delivered = Vec::new();
    backend
        .0
        .lock()
        .unwrap()
        .drain_pending(vcpu_id, &mut deliver_with(|interrupt| {
            delivered.push(interrupt);
            Ok(())
        }))
        .unwrap();
    delivered
}

#[test]
fn legal_device_line_targets_the_bootstrap_vcpu() {
    let backend = locked(2);
    let fabric = InterruptFabric::with_controller(
        VMInterruptMode::Emulated,
        sink(&backend),
        controller(&backend),
    )
    .unwrap();
    let line = fabric
        .resolve_irq(DEVICE_IRQ_START, InterruptTriggerMode::EdgeTriggered)
        .unwrap();
    line.pulse().unwrap();

    let secondary = drain(&backend, 1);
    assert!(secondary.is_empty());

    let bootstrap = drain(&backend, BSP_VCPU_ID);
    assert_eq!(
        bootstrap,
        vec![PendingInterrupt {
            vector: DEVICE_IRQ_START,
            trigger: InterruptTriggerMode::EdgeTriggered,
        }]
    );
}

#[test]
fn rejects_backend_without_vcpus() {
    assert_eq!(
        LoongArchInterruptBackend::new(0).err(),
        Some(AxError::InvalidInput)
    );
}

#[test]
fn rejects_out_of_range_device_lines() {
    let mut backend = LoongArchInterruptBackend::new(1).unwrap();
    assert_eq!(
        backend.pulse(IrqLineId(DEVICE_IRQ_START - 1)),
        Err(AxError::InvalidInput)
    );
    assert_eq!(
        backend.pulse(IrqLineId(DEVICE_IRQ_END)),
        Err(AxError::InvalidInput)
    );
}

#[test]
fn rejects_level_lines_during_resolution() {
    let backend = locked(1);
    let fabric = InterruptFabric::with_sink(VMInterruptMode::Emulated, sink(&backend)).unwrap();

    assert_eq!(
        fabric
            .resolve_irq(DEVICE_IRQ_START, InterruptTriggerMode::LevelTriggered)
            .err(),
        Some(AxError::Unsupported)
    );
    assert_eq!(
        backend.set_level(IrqLineId(DEVICE_IRQ_START), true),
        Err(AxError::Unsupported)
    );
    assert_eq!(
        backend.set_level(IrqLineId(DEVICE_IRQ_START), false),
        Err(AxError::Unsupported)
    );
}

#[test]
fn loongarch_failed_delivery_keeps_interrupt_pending() {
    let mut backend = LoongArchInterruptBackend::new(1).unwrap();
    backend.pulse(IrqLineId(DEVICE_IRQ_START + 1)).unwrap();
    assert_eq!(
        backend.drain_pending(BSP_VCPU_ID, &mut deliver_with(|_| Err(AxError::WouldBlock))),
        Err(AxError::WouldBlock)
    );

    let mut delivered = Vec::new();
    backend
        .drain_pending(BSP_VCPU_ID, &mut deliver_with(|interrupt: PendingInterrupt| {
            delivered.push(interrupt);
            Ok(())
        }))
        .unwrap();
    assert_eq!(delivered.len(), 1);
    assert_eq!(delivered[0].vector, DEVICE_IRQ_START + 1);
}

#[test]
fn failed_delivery_keeps_the_order_behind_it() {
    let mut backend = LoongArchInterruptBackend::new(1).unwrap();
    for line in [3, 4, 5, 6] {
        backend.pulse(IrqLineId(line)).unwrap();
    }
    let mut first = Vec::new();
    assert_eq!(
        backend.drain_pending(BSP_VCPU_ID, &mut deliver_with(|interrupt: PendingInterrupt| {
            if first.len() == 2 {
                return Err(AxError::BadState);
            }
            first.push(interrupt.vector);
            Ok(())
        })),
        Err(AxError::BadState)
    );
    assert_eq!(first, vec![3, 4]);
    let mut second = Vec::new();
    backend
        .drain_pending(BSP_VCPU_ID, &mut deliver_with(|interrupt: PendingInterrupt| {
            second.push(interrupt.vector);
            Ok(())
        }))
        .unwrap();
    assert_eq!(second, vec![5, 6]);
}

#[test]
fn loongarch_refuses_what_it_does_not_have() {
    let mut backend = LoongArchInterruptBackend::new(1).unwrap();
    assert_eq!(backend.eoi(0, 3), Err(AxError::Unsupported));
    assert_eq!(
        backend.inject_msi(MsiRoute {
            message: MsiMessage { address: 1, data: 2 },
            target_vcpu: 0,
            vector: 3,
        }),
        Err(AxError::Unsupported)
    );
    assert_eq!(
        backend.set_level(IrqLineId(1), true),
        Err(AxError::InvalidInput)
    );
    assert_eq!(
        backend.validate_line(IrqLineId(1), InterruptTriggerMode::EdgeTriggered),
        Err(AxError::InvalidInput)
    );
    assert_eq!(backend.forward_host_irq(9), Ok(()));
    assert_eq!(backend.forward_host_irq(10), Err(AxError::InvalidInput));
}

fn share(backend: LoongArchInterruptBackend) -> LoongArchBackendHandles {
    let backend = Arc::new(Locked(Mutex::new(backend)));
    LoongArchBackendHandles {
        sink: sink(&backend),
        controller: controller(&backend),
    }
}

#[test]
fn loongarch_fabric_setup() {
    let inert = configure(VMInterruptMode::NoIrq, 0, share).unwrap();
    assert!(!inert.has_backend());
    assert_eq!(
        configure(VMInterruptMode::Emulated, 0, share).err(),
        Some(AxError::InvalidInput)
    );
    let fabric = configure(VMInterruptMode::Emulated, 1, share).unwrap();
    assert!(fabric.has_backend());
    assert!(fabric.has_controller());
    assert_eq!(fabric.pulse(2), Ok(()));
    assert_eq!(fabric.forward_host_irq(10), Err(AxError::InvalidInput));
}
