use axvirt::error::{AxError, AxResult};
use axvirt::irq::aarch64::{
    its_host_base, place_redistributors, validate_distributor, Aarch64InterruptBackend,
    RedistributorPlacement, PPI_END, SGI_END, SPECIAL_INTERRUPT_START,
};
use axvirt::irq::router::MsiRoute;
use axvirt::irq::{InterruptDelivery, PendingInterrupt};
use axvirt::resource::MsiMessage;
use axvirt::types::{
    EmulatedDeviceConfig, EmulatedDeviceType, InterruptTriggerMode, IrqLineId, BSP_VCPU_ID,
};

struct Deliver<F>(F);

impl<F: FnMut(PendingInterrupt) -> AxResult<()>> InterruptDelivery for Deliver<F> {
    fn deliver(&mut self, interrupt: PendingInterrupt) -> AxResult<()> {
        (self.0)(interrupt)
    }
}

fn deliver_with<F: FnMut(PendingInterrupt) -> AxResult<()>>(f: F) -> Deliver<F> {
    Deliver(f)
}

#[test]
fn rejects_sgis_and_special_interrupt_ids() {
    let mut backend = Aarch64InterruptBackend::new(1).unwrap();
    assert_eq!(
        backend.pulse(IrqLineId(SGI_END - 1)),
        Err(AxError::InvalidInput)
    );
    assert_eq!(
        backend.pulse(IrqLineId(SPECIAL_INTERRUPT_START)),
        Err(AxError::InvalidInput)
    );
}

#[test]
fn spi_lines_target_the_bootstrap_vcpu() {
    let mut backend = Aarch64InterruptBackend::new(2).unwrap();
    backend.pulse(IrqLineId(PPI_END)).unwrap();

    let mut secondary = Vec::new();
    backend
        .drain_pending(1, &mut deliver_with(|interrupt| {
            secondary.push(interrupt);
            Ok(())
        }))
        .unwrap();
    assert!(secondary.is_empty());

    let mut bootstrap = Vec::new();
    backend
        .drain_pending(BSP_VCPU_ID, &mut deliver_with(|interrupt: PendingInterrupt| {
            bootstrap.push(interrupt);
            Ok(())
        }))
        .unwrap();
    assert_eq!(bootstrap.len(), 1);
    assert_eq!(bootstrap[0].vector, PPI_END);
}

#[test]
fn full_list_register_keeps_interrupt_pending() {
    let mut backend = Aarch64InterruptBackend::new(1).unwrap();
    backend.pulse(IrqLineId(48)).unwrap();
    assert_eq!(
        backend.drain_pending(BSP_VCPU_ID, &mut deliver_with(|_| Err(AxError::WouldBlock))),
        Err(AxError::WouldBlock)
    );

    let mut delivered = Vec::new();
    backend
        .drain_pending(BSP_VCPU_ID, &mut deliver_with(|interrupt: PendingInterrupt| {
            delivered.push(interrupt);
            Ok(())
        }))
        .unwrap();
    assert_eq!(delivered.len(), 1);
    assert_eq!(delivered[0].vector, 48);
}

#[test]
fn lowering_level_line_stops_retries() {
    let mut backend = Aarch64InterruptBackend::new(1).unwrap();
    backend.set_level(IrqLineId(49), true).unwrap();

    let mut first = Vec::new();
    backend
        .drain_pending(BSP_VCPU_ID, &mut deliver_with(|interrupt| {
            first.push(interrupt);
            Ok(())
        }))
        .unwrap();
    assert_eq!(first.len(), 1);

    backend.set_level(IrqLineId(49), false).unwrap();
    let mut after_lower = vec![];
    backend
        .drain_pending(BSP_VCPU_ID, &mut deliver_with(|interrupt| {
            after_lower.push(interrupt);
            Ok(())
        }))
        .unwrap();
    assert!(after_lower.is_empty());
}

fn drain(backend: &mut Aarch64InterruptBackend) -> Vec<usize> {
    let mut vectors = Vec::new();
    backend
        .drain_pending(BSP_VCPU_ID, &mut deliver_with(|interrupt: PendingInterrupt| {
            vectors.push(interrupt.vector);
            Ok(())
        }))
        .unwrap();
    vectors
}

#[test]
fn aarch64_backend_without_vcpus_is_refused() {
    assert_eq!(
        Aarch64InterruptBackend::new(0).err(),
        Some(AxError::InvalidInput)
    );
}

#[test]
fn asserted_level_line_is_retried_until_lowered() {
    let mut backend = Aarch64InterruptBackend::new(1).unwrap();
    backend.set_level(IrqLineId(50), true).unwrap();
    backend.set_level(IrqLineId(50), true).unwrap();
    backend.pulse(IrqLineId(51)).unwrap();
    assert_eq!(drain(&mut backend), vec![50, 51]);
    assert_eq!(drain(&mut backend), vec![50]);
    assert_eq!(drain(&mut backend), vec![50]);
    backend.set_level(IrqLineId(50), false).unwrap();
    assert!(drain(&mut backend).is_empty());
}

#[test]
fn level_entry_keeps_its_trigger_mode() {
    let mut backend = Aarch64InterruptBackend::new(1).unwrap();
    backend.set_level(IrqLineId(52), true).unwrap();
    let mut seen = Vec::new();
    backend
        .drain_pending(BSP_VCPU_ID, &mut deliver_with(|interrupt| {
            seen.push(interrupt);
            Ok(())
        }))
        .unwrap();
    assert_eq!(
        seen,
        vec![PendingInterrupt {
            vector: 52,
            trigger: InterruptTriggerMode::LevelTriggered,
        }]
    );
}

#[test]
fn blocked_aarch64_delivery_keeps_the_order() {
    let mut backend = Aarch64InterruptBackend::new(1).unwrap();
    for line in [60, 61, 62] {
        backend.pulse(IrqLineId(line)).unwrap();
    }
    let mut count = 0;
    assert_eq!(
        backend.drain_pending(BSP_VCPU_ID, &mut deliver_with(|_| {
            count += 1;
            if count == 2 {
                Err(AxError::WouldBlock)
            } else {
                Ok(())
            }
        })),
        Err(AxError::WouldBlock)
    );
    assert_eq!(drain(&mut backend), vec![61, 62]);
}

#[test]
fn failed_aarch64_delivery_drops_the_interrupt() {
    let mut backend = Aarch64InterruptBackend::new(1).unwrap();
    for line in [60, 61] {
        backend.pulse(IrqLineId(line)).unwrap();
    }
    assert_eq!(
        backend.drain_pending(BSP_VCPU_ID, &mut deliver_with(|_| Err(AxError::BadState))),
        Err(AxError::BadState)
    );
    assert_eq!(drain(&mut backend), vec![61]);
}

#[test]
fn aarch64_controller_operations() {
    let mut backend = Aarch64InterruptBackend::new(1).unwrap();
    assert_eq!(backend.eoi(0, 3), Ok(()));
    assert_eq!(
        backend.inject_msi(MsiRoute {
            message: MsiMessage { address: 1, data: 2 },
            target_vcpu: 0,
            vector: 3,
        }),
        Err(AxError::Unsupported)
    );
    assert_eq!(backend.forward_host_irq(70), Ok(()));
    assert_eq!(backend.forward_host_irq(1020), Err(AxError::InvalidInput));
    assert_eq!(
        backend.set_level(IrqLineId(15), true),
        Err(AxError::InvalidInput)
    );
    assert_eq!(backend.target_vcpu(IrqLineId(16)), Ok(0));
    assert_eq!(drain(&mut backend), vec![70]);
}

fn config(base_gpa: usize, length: usize, cfg_list: Vec<usize>) -> EmulatedDeviceConfig {
    EmulatedDeviceConfig {
        name: String::from("gic"),
        base_gpa,
        length,
        irq_id: 0,
        irqs: vec![],
        emu_type: EmulatedDeviceType::GPPTRedistributor,
        cfg_list,
    }
}

#[test]
fn redistributors_are_placed_by_stride() {
    assert_eq!(
        place_redistributors(&config(0x80a_0000, 0x2_0000, vec![2, 0x2_0000, 4])),
        Ok(vec![
            RedistributorPlacement {
                base_gpa: 0x80a_0000,
                length: 0x2_0000,
                pcpu_id: 4,
            },
            RedistributorPlacement {
                base_gpa: 0x80c_0000,
                length: 0x2_0000,
                pcpu_id: 5,
            },
        ])
    );
}

#[test]
fn bad_redistributor_configurations_are_refused() {
    for bad in [
        config(0x1000, 0x1000, vec![1, 2]),
        config(0x1000, 0x1000, vec![0, 0x1000, 0]),
        config(0x1000, 0x1000, vec![1, 0, 0]),
        config(0x1000, 0, vec![1, 0x1000, 0]),
        config(usize::MAX, 1, vec![1, 0x1000, 0]),
        config(0x1000, 0x1000, vec![2, usize::MAX, 0]),
        config(0x1000, 0x1000, vec![3, usize::MAX / 2 + 1, 0]),
        config(0x1000, 0x1000, vec![2, 0x1000, usize::MAX]),
    ] {
        assert_eq!(place_redistributors(&bad), Err(AxError::InvalidInput));
    }
    assert!(place_redistributors(&config(0x1000, 0x1000, vec![1, usize::MAX, usize::MAX])).is_ok());
}

#[test]
fn distributor_and_its_configurations() {
    assert_eq!(validate_distributor(&config(0x1000, 0x1000, vec![])), Ok(()));
    assert_eq!(
        validate_distributor(&config(0x1000, 0x1000, vec![1])),
        Err(AxError::InvalidInput)
    );
    assert_eq!(
        validate_distributor(&config(0x1000, 0, vec![])),
        Err(AxError::InvalidInput)
    );
    assert_eq!(its_host_base(&config(0x1000, 0x1000, vec![7])), Ok(7));
    assert_eq!(
        its_host_base(&config(0x1000, 0x1000, vec![])),
        Err(AxError::InvalidInput)
    );
}
