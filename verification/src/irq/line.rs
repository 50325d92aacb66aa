//! Interrupt lines that devices drive.

use crate::error::{AxError, AxResult};
use crate::types::{InterruptTriggerMode, IrqLineId};
use crate::shared::Shared;
use vstd::prelude::*;

verus! {

/// Interrupt backend that line signals end in.
///
/// The outcome functions are the implementor's own: they name what a call may
/// return, which is anything unless the implementor says more.
pub trait IrqSink: Send + Sync {
    /// Whether asking for the line may end with `r`.
    open spec fn validate_outcome(
        &self,
        line: IrqLineId,
        trigger: InterruptTriggerMode,
        r: AxResult<()>,
    ) -> bool {
        true
    }

    /// Whether driving the line may end with `r`.
    open spec fn level_outcome(&self, line: IrqLineId, asserted: bool, r: AxResult<()>) -> bool {
        true
    }

    /// Whether pulsing the line may end with `r`.
    open spec fn pulse_outcome(&self, line: IrqLineId, r: AxResult<()>) -> bool {
        true
    }

    /// Checks that the backend serves the line in the given trigger mode.
    fn validate_line(&self, line: IrqLineId, trigger: InterruptTriggerMode) -> (r: AxResult<()>)
        ensures
            self.validate_outcome(line, trigger, r),
    ;

    /// Sets the asserted state of the line.
    fn set_level(&self, line: IrqLineId, asserted: bool) -> (r: AxResult<()>)
        ensures
            self.level_outcome(line, asserted, r),
    ;

    /// Delivers one pulse on the line.
    fn pulse(&self, line: IrqLineId) -> (r: AxResult<()>)
        ensures
            self.pulse_outcome(line, r),
    ;
}

/// One interrupt line together with the backend it ends in.
pub struct IrqLine {
    id: IrqLineId,
    trigger: InterruptTriggerMode,
    sink: Shared<dyn IrqSink>,
}

impl IrqLine {
    /// The line's identifier.
    pub closed spec fn spec_id(&self) -> IrqLineId {
        self.id
    }

    /// The line's trigger mode.
    pub closed spec fn spec_trigger(&self) -> InterruptTriggerMode {
        self.trigger
    }

    /// The backend that the line ends in.
    pub closed spec fn spec_sink(&self) -> Shared<dyn IrqSink> {
        self.sink
    }

    /// Creates a line that ends in `sink`.
    pub fn new(id: IrqLineId, trigger: InterruptTriggerMode, sink: Shared<dyn IrqSink>) -> (r: Self)
        ensures
            r.spec_id() == id,
            r.spec_trigger() == trigger,
            r.spec_sink() == sink,
    {
        IrqLine { id, trigger, sink }
    }

    /// Returns the line's identifier.
    pub fn id(&self) -> (r: IrqLineId)
        ensures
            r == self.spec_id(),
    {
        self.id
    }

    /// Returns the line's trigger mode.
    pub fn trigger(&self) -> (r: InterruptTriggerMode)
        ensures
            r == self.spec_trigger(),
    {
        self.trigger
    }

    fn drive(&self, asserted: bool) -> (r: AxResult<()>)
        ensures
            match self.spec_trigger() {
                InterruptTriggerMode::EdgeTriggered => r == Err::<(), AxError>(
                    AxError::InvalidInput,
                ),
                InterruptTriggerMode::LevelTriggered => self.spec_sink().obj().level_outcome(
                    self.spec_id(),
                    asserted,
                    r,
                ),
            },
    {
        match self.trigger {
            InterruptTriggerMode::EdgeTriggered => Err(AxError::InvalidInput),
            InterruptTriggerMode::LevelTriggered => self.sink.get().set_level(self.id, asserted),
        }
    }

    /// Asserts a level-triggered line.
    pub fn raise(&self) -> (r: AxResult<()>)
        ensures
            match self.spec_trigger() {
                InterruptTriggerMode::EdgeTriggered => r == Err::<(), AxError>(
                    AxError::InvalidInput,
                ),
                InterruptTriggerMode::LevelTriggered => self.spec_sink().obj().level_outcome(
                    self.spec_id(),
                    true,
                    r,
                ),
            },
    {
        self.drive(true)
    }

    /// Deasserts a level-triggered line.
    pub fn lower(&self) -> (r: AxResult<()>)
        ensures
            match self.spec_trigger() {
                InterruptTriggerMode::EdgeTriggered => r == Err::<(), AxError>(
                    AxError::InvalidInput,
                ),
                InterruptTriggerMode::LevelTriggered => self.spec_sink().obj().level_outcome(
                    self.spec_id(),
                    false,
                    r,
                ),
            },
    {
        self.drive(false)
    }

    /// Pulses an edge-triggered line.
    pub fn pulse(&self) -> (r: AxResult<()>)
        ensures
            match self.spec_trigger() {
                InterruptTriggerMode::EdgeTriggered => self.spec_sink().obj().pulse_outcome(
                    self.spec_id(),
                    r,
                ),
                InterruptTriggerMode::LevelTriggered => r == Err::<(), AxError>(
                    AxError::InvalidInput,
                ),
            },
    {
        match self.trigger {
            InterruptTriggerMode::EdgeTriggered => self.sink.get().pulse(self.id),
            InterruptTriggerMode::LevelTriggered => Err(AxError::InvalidInput),
        }
    }
}

/// Resolves device interrupt lines.
pub trait IrqResolver {
    /// Whether resolving the line may end with `r`.
    open spec fn resolve_outcome(
        &self,
        line: usize,
        trigger: InterruptTriggerMode,
        r: AxResult<IrqLine>,
    ) -> bool {
        true
    }

    /// Resolves a VM-local line in the given trigger mode.
    fn resolve_irq(&self, line: usize, trigger: InterruptTriggerMode) -> (r: AxResult<IrqLine>)
        ensures
            self.resolve_outcome(line, trigger, r),
    ;
}

} // verus!
