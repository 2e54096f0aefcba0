CAN USB Kvaser
==============

A driver for Kvaser USB CAN interfaces, such as the Leaf, whose core is verified with Verus.

Layout
------

- `src/` is the verified library:
  - `message.rs`: the vendor messages, their wire format (`spec_encode`, `read_from`),
    the encoder `to_bytes` and the decoder `from_bytes`, and the laws that tie them together.
  - `codec.rs`: the length-prefixed framing of messages on a `bytes::BytesMut` stream.
  - `device.rs`: the requests sent to an adapter and what is made of its replies.
  - `enumeration.rs`: recognising Kvaser adapters and the label shown for one.
  - `wire.rs`, `text.rs`: little-endian fields and hexadecimal text.
- `app/` holds the USB transfers (`nusb`), the `tokio_util` framing traits, the `Sink` and
  `Stream` impls and the `can_hal` channels, all of which call into the library.
- `tests/` runs the library on concrete values.
