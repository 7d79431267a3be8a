# reims_vgpu_vulkan

The policy of a Vulkan GPU backend, verified with Verus: which command buffer
is recorded next and when it is over, who owns the queue, when a guest's
completion stamp may be published, which objects are kept for reuse and when
they may go, where an image over guest memory binds, and what every refusal
says.

- `src/` is the library. It works on plain values: a handle is the number that
  the driver gave out, and a driver call is an action that a function asks for
  and an answer that it is handed.
  - `retirement` orders recordings; an object outlives every recording that can
    name it.
  - `queue_owner` and `stamp_completion` are the two threads' decisions.
  - `linear_image_import` plans images over imported guest memory.
  - `pools` holds the ring of command buffers, the batch under way, the buffers
    and images, and their free lists. `pools::ring`, `pools::batch` and
    `pools::teardown` are the step functions that the driver's answers go
    through.
  - `reason`, `types` and `decline` word every refusal, `reason_line` shows what
    a line tells, and `late` words what a late wait reports; `format` and
    `scatter_shader` are tables.
- `tests/` runs the library.
- `app/` makes the Vulkan calls.

The laws of the library are the public proof functions whose names begin with
`law_`. What is trusted stands in `src/vk.rs`: the text by which the `ash` crate
shows a result code and a format.
