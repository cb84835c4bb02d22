# hyperv_virtiofs

Virtio-fs for Hyper-V guests: a device host that attaches virtio-fs devices, each
one shared directory, to a compute system, over Host Device Virtualization (HDV).

- `src/` is the library, verified with Verus: the answers of the C ABI (`abi`), the
  aperture cache behind guest memory (`mem`), the dispatcher of a queue
  (`dispatcher`) and the worker pool (`pool`), descriptor chains (`payload`), the
  routes of doorbells (`doorbell`, `vmworker`), interrupts (`interrupt`), the handle
  that they share before there is a device (`handle`), the PCI side of a device
  (`pci`, `transport`, `attach`), and the documents and names that
  go with them (`guid`, `utf16`, `json`, `testvm`). It makes no platform call: a
  function that needs one says so in its result, and takes the outcome back.
- `tests/` are its tests.
- `app/` is the C ABI itself and everything that talks to the platform: the calls
  into HDV and the host compute system, COM objects, threads, the log subscriber.
  The device model of OpenVMM is behind the traits in `app/seams.rs`.
