# vmbus_guest

The guest half of the Hyper-V VMBus protocol, as a Verus library: SynIC
bring-up, version negotiation, channel offers, GPADLs, channels, ring
buffers, a keyboard and a NIC driver, and the handlers and the packet loop
of a fuzzer that runs in the guest.

* `src/` is the library. Its contracts are stated over byte sequences, over
  the record of hypercalls and slot reads that a `HvCtx` keeps together with
  the platform that they brought about, and over the accesses that a ring
  makes to its memory.
* `tests/` runs the library, most of it against a host that the tests play.
* `app/` ties the library to a machine: port I/O, pages, shared rings, and
  the executor's loop over a transport.
