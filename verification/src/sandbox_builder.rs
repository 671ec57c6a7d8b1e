//! The sizes a Wasm sandbox is built with: requests below the minimum that
//! the Wasm runtime needs are ignored.
use vstd::prelude::*;

verus! {

/// The least guest stack size.
pub const MIN_STACK_SIZE: u64 = 64 * 1024;

/// The least guest input buffer size.
pub const MIN_INPUT_DATA_SIZE: usize = 192 * 1024;

/// The least guest heap size.
pub const MIN_HEAP_SIZE: u64 = 1024 * 1024;

/// The memory configuration of a sandbox; an output buffer size left
/// `None` keeps the hypervisor layer's default.
#[derive(PartialEq, Eq, Structural, Debug, Clone, Copy)]
pub struct SandboxConfiguration {
    pub input_data_size: usize,
    pub output_data_size: Option<usize>,
    pub heap_size: u64,
    pub stack_size: u64,
}

/// A builder of the memory configuration of a Wasm sandbox.
#[derive(PartialEq, Eq, Structural, Debug, Clone, Copy)]
pub struct SandboxBuilder {
    config: SandboxConfiguration,
}

impl View for SandboxBuilder {
    type V = SandboxConfiguration;

    closed spec fn view(&self) -> SandboxConfiguration {
        self.config
    }
}

impl SandboxConfiguration {
    /// No size is below the runtime's minimum.
    pub open spec fn wf(self) -> bool {
        &&& self.input_data_size >= MIN_INPUT_DATA_SIZE
        &&& self.heap_size >= MIN_HEAP_SIZE
        &&& self.stack_size >= MIN_STACK_SIZE
    }
}

impl Default for SandboxBuilder {
    fn default() -> (b: Self)
        ensures
            b@ == (SandboxConfiguration {
                input_data_size: MIN_INPUT_DATA_SIZE,
                output_data_size: None,
                heap_size: MIN_HEAP_SIZE,
                stack_size: MIN_STACK_SIZE,
            }),
    {
        Self::new()
    }
}

impl SandboxBuilder {
    /// A builder with the minimum input buffer, heap and stack sizes.
    pub fn new() -> (b: Self)
        ensures
            b@ == (SandboxConfiguration {
                input_data_size: MIN_INPUT_DATA_SIZE,
                output_data_size: None,
                heap_size: MIN_HEAP_SIZE,
                stack_size: MIN_STACK_SIZE,
            }),
            b@.wf(),
    {
        SandboxBuilder {
            config: SandboxConfiguration {
                input_data_size: MIN_INPUT_DATA_SIZE,
                output_data_size: None,
                heap_size: MIN_HEAP_SIZE,
                stack_size: MIN_STACK_SIZE,
            },
        }
    }

    /// Set the guest output buffer size.
    pub fn with_guest_output_buffer_size(self, guest_output_buffer_size: usize) -> (b: Self)
        ensures
            b@ == (SandboxConfiguration { output_data_size: Some(guest_output_buffer_size), ..self@ }),
    {
        let mut config = self.config;
        config.output_data_size = Some(guest_output_buffer_size);
        SandboxBuilder { config }
    }

    /// Set the guest input buffer size, if above the minimum.
    pub fn with_guest_input_buffer_size(self, guest_input_buffer_size: usize) -> (b: Self)
        ensures
            guest_input_buffer_size > MIN_INPUT_DATA_SIZE ==> b@ == (SandboxConfiguration {
                input_data_size: guest_input_buffer_size,
                ..self@
            }),
            guest_input_buffer_size <= MIN_INPUT_DATA_SIZE ==> b@ == self@,
    {
        let mut config = self.config;
        if guest_input_buffer_size > MIN_INPUT_DATA_SIZE {
            config.input_data_size = guest_input_buffer_size;
        }
        SandboxBuilder { config }
    }

    /// Set the guest stack size, if above the minimum.
    pub fn with_guest_stack_size(self, guest_stack_size: u64) -> (b: Self)
        ensures
            guest_stack_size > MIN_STACK_SIZE ==> b@ == (SandboxConfiguration {
                stack_size: guest_stack_size,
                ..self@
            }),
            guest_stack_size <= MIN_STACK_SIZE ==> b@ == self@,
    {
        let mut config = self.config;
        if guest_stack_size > MIN_STACK_SIZE {
            config.stack_size = guest_stack_size;
        }
        SandboxBuilder { config }
    }

    /// Set the guest heap size, if above the minimum.
    pub fn with_guest_heap_size(self, guest_heap_size: u64) -> (b: Self)
        ensures
            guest_heap_size > MIN_HEAP_SIZE ==> b@ == (SandboxConfiguration {
                heap_size: guest_heap_size,
                ..self@
            }),
            guest_heap_size <= MIN_HEAP_SIZE ==> b@ == self@,
    {
        let mut config = self.config;
        if guest_heap_size > MIN_HEAP_SIZE {
            config.heap_size = guest_heap_size;
        }
        SandboxBuilder { config }
    }

    /// The current configuration.
    pub fn get_config(&self) -> (c: SandboxConfiguration)
        ensures
            c == self@,
    {
        self.config
    }
}

/// Whatever sizes are asked for, a configuration built from the defaults
/// never falls below the runtime's minimums.
pub proof fn lemma_builder_keeps_minimums(
    c: SandboxConfiguration,
    input: usize,
    output: usize,
    stack: u64,
    heap: u64,
)
    requires
        c.wf(),
    ensures
        (if input > MIN_INPUT_DATA_SIZE { SandboxConfiguration { input_data_size: input, ..c } } else { c }).wf(),
        (SandboxConfiguration { output_data_size: Some(output), ..c }).wf(),
        (if stack > MIN_STACK_SIZE { SandboxConfiguration { stack_size: stack, ..c } } else { c }).wf(),
        (if heap > MIN_HEAP_SIZE { SandboxConfiguration { heap_size: heap, ..c } } else { c }).wf(),
{
}

} // verus!
