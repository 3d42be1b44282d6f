# ethercrab

The controlling side of an EtherCAT network, verified with Verus.

The library in `src/` touches no network interface. It lays out the frames that a main device sends,
keeps account of which frame slots are in use, reads responses, and decides what comes next when a
network is started up or its SubDevices change state. Each function states what it does as a
contract over plain values; what holds of several functions together is stated by the proof
functions whose names begin with `law_`.

- `wire`, `coe`, `command`, `register`, `eeprom`, `fmmu`, `sync_manager`, `subdevice`: what goes over
  the wire, and how it is written as bytes.
- `pdu_loop`: frame slots, frames, and responses.
- `maindevice`, `hand_out`: the main device, the frames it prepares, and the frames it hands to a
  callback one by one.
- `reset`, `wait`, `init`: resetting a network, waiting for a state, and initialising a network.
- `collections`: the queue and the table that an initialisation uses, kept in `heapless` collections.
  Their contracts are taken on trust, as `collections` says of each.

`app/` runs a main device on a network interface: it sends the frames, waits, and hands the replies
to the library.
