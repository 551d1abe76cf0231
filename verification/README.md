# bluest (CoreBluetooth data model)

The CoreBluetooth backend of bluest, split in two:

- `src/` is the verified library. It holds the CoreBluetooth value types
  (manager and peripheral states, characteristic property bits, error codes,
  stream status and events), the conversion of characteristic property bits,
  the Bluetooth UUID byte forms used by `CBUUID` and `NSUUID`, and the
  construction of `AdvertisementData` from the entries of an advertisement
  dictionary. UUIDs are held as their 128-bit values.
- `app/` holds the Objective-C objects and the messages sent to them. It reads
  what CoreBluetooth hands over into the library's types and calls the
  library. It needs Apple's frameworks and builds on Apple targets only.
