# qusb

USB devices over QUIC: one peer lends a USB device, another borrows it and plugs it into a virtual
host controller of its own, as if the device were there.

The library in `src/` holds what both peers decide and compute, with contracts that Verus proves:

- `proto`, `codec`: the records and frames that the peers exchange, and the buffer that they are
  read from. Whatever is written is read back.
- `session`, `devices`: how a stream begins, how requests are answered, and how the devices of a
  peer are told to another.
- `lend`, `operator`: what the lender does for a request, what it answers, how the borrower numbers
  its requests and what it gives back, and when what waits in a buffer is written out.
- `borrow`, `state`, `iso`: how the borrower takes what comes in, a borrower with longer sequence
  numbers, and streams that share the datagrams of a connection.
- `stub`, `dev`: who gets the work of a virtual host controller, and which of its tasks runs next.
- `usb`, `utils`, `args`, `rpc`: the data of USB requests, maps with several keys, measurements,
  the arguments of the program, and the records of remote calls.
- `buf` and `dev::heap` hold most of what is believed and not proved: what the `bytes` and
  `heapless` crates do. The other wrappers of outside calls stand beside their callers; each says
  in its comment what it claims.

`app/` is the program: sockets, threads, USB handles and clocks. `tests/` runs the library.
