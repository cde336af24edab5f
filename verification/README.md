# fprime_svc

Flight-software services, verified with Verus: CCSDS framing and deframing,
command dispatch and sequencing, downlink queueing, packet logging, buffer
management, rate groups and a link adapter.

## How it is built

Every component in `src/` is a plain state machine. A handler takes the values
that arrive on a port, changes the component, and appends the port calls that
the component makes to a list of outputs, in order. What depends on the world
outside (the clock, files, an allocator, other components) comes in as an
argument.

The contracts speak of a mathematical state, the view of the component, and of
the outputs. A handler that would stop the system on some input leaves that
input out in its `requires`; beside it stands a function that says whether an
input is taken, for callers that have to find out.

## Modules

| module | what it holds |
| --- | --- |
| `ccsds` | space packets, TM and TC transfer frames, sequence counts, checksums |
| `cmd_dispatcher` | routing commands to the components that registered them, and the answers back |
| `cmd_sequencer` | loading, validating and running binary command sequences |
| `com_queue` | prioritised queues of packets and buffers for one link |
| `com_logger` | packet logs in files that are closed when full and get a checksum file |
| `buffer_manager` | pools of buffers of fixed sizes |
| `active_rate_group` | calling members once per tick, and counting slipped cycles |
| `com_stub` | between the queue and a byte-stream driver, with retries |
| `fw` | buffers, byte order, times, queues, checksums, texts and other common parts |

What holds of several operations together is stated as proof functions whose
names begin with `law_`, in the module they are about, or in its `laws` files.

`app/` wraps the components in ports, queues, threads and files. `tests/` runs
the library on concrete values.
