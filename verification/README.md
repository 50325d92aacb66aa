# axvirt

Interrupt routing and emulated-device plumbing of a hypervisor, verified with
Verus.

The library decides what a virtual machine monitor does with device resources,
bus accesses and interrupts. Each function has a contract over mathematical
models of its data, and laws that span several functions are proved beside them.

- `src/` is the verified library.
  - `resource`, `registry`, `bus`, `bus_router`: device resources, who may claim
    them, and which device answers a bus access.
  - `device_ops`, `device`, `device_lists`, `vm_devices`, `factory`, `lifecycle`,
    `range`, `range_alloc`: the devices of a VM and how bundles of them join it.
  - `ioapic`, `irq`: the virtual IO APIC, the interrupt backends of the three
    architectures, and the fabric that connects lines to them.
  - `runtime`, `gic`, `boot`, `pch_pic`: decisions of the running host: what is
    forwarded to a VM, which list register takes an interrupt, what the early
    page tables map, which registers are written.
  - `types`, `error`, `shared`: values and handles used throughout.
- `tests/` runs the library.
- `app/` is the host side in ordinary Rust: locks, logging, host interrupt
  actions, hardware registers and entry points.

The library calls `ax_memory_addr` for address ranges and page alignment,
`ax_page_table_entry` for mapping flags, and `Arc::ptr_eq` to recognize a device
that is registered twice. These calls stand behind declarations whose doc
comments say what is taken for granted of them.
