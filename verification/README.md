# ferrisetw

Schemas of Event Tracing for Windows (ETW) events, with transparent support for classic
(`win:EventlogClassic`) events, verified with [Verus](https://github.com/verus-lang/verus).

The library decides; it never asks the operating system itself. Where an answer of Windows is
needed (what TDH knows about an event, the text of a SID), a step of the library says what to ask,
and the caller goes on with the answer.

* `src/classic.rs` parses the payload of classic events and re-encodes its strings;
  `src/classic_laws.rs` proves that what is written reads back.
* `src/schema.rs` describes one kind of event.
* `src/schema_locator.rs` finds and caches schemas; `src/locator_laws.rs` proves what holds over
  several events.
* `src/trace/` decides which callbacks an event is for, `src/provider.rs` holds the providers.
* `src/native.rs` holds what the operating system supplies, as plain values.
* `src/cache.rs`, `src/le.rs`, `src/utf16.rs` and `src/text.rs` are the parts underneath.
* `app/` shares the library between threads, asks the operating system, logs and serializes.
