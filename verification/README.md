# bedcode_mobile

The verified core of the BedCode phone app: the rules of its file service
(mounts, upload sessions, batch gating, ranges, listings, SAF tree paths and
relay copies), its transfer client (resume cursors, download planning, the
upload session planner, retry decisions), the transfer-intent state machine,
desktop peer records, the wire message model, client routing and handler
decisions, connection decisions, the file server's lifecycle and request
guard, mDNS discovery state, notification texts and the integer parts of
the OCR pipeline.

- `src/` — the library, written in Verus; every function carries a contract
  and is verified. Calls into `rand`, `base64`, `uuid` and `chrono`, and into
  the few `std` functions that Verus does not specify, go through small
  trusted wrappers whose contracts state what those functions document.
- `tests/` — ordinary Rust tests of the library.
- `app/` — host glue that Verus does not see: file system work, serde
  copies of the wire types, the blocking HTTP transfer client (`reqwest`),
  the mDNS daemons (`mdns-sd`), the floating-point image and geometry code
  of the OCR pipeline, and the upload loop driver.
