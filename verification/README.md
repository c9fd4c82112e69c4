# nova_temporal

A verified model of the Temporal.Instant and Temporal.ZonedDateTime
built-ins of an ECMAScript engine, written in Verus.

- `src/heap.rs`: the engine heap (ordinary objects with data properties,
  instant and zoned date-time records, realms and their intrinsics), its
  well-formedness invariant, and Get along prototype chains.
- `src/value.rs`, `src/conversion.rs`: language values and ToString,
  ToBoolean and ToNumber over them. Number values are integral (or NaN or
  infinite); ToNumber of a string reads decimal literals (with fraction
  and exponent), hexadecimal, octal and binary literals and `Infinity`,
  and holds a value with a fractional part as its truncation, which is all
  that the integer conversions read of it. An object has no callable
  `toString`/`valueOf`, so ToPrimitive of an object throws a TypeError.
- `src/options.rs`: GetOption, GetOptionsObject,
  GetTemporalUnitValuedOption, GetRoundingModeOption,
  GetRoundingIncrementOption, ToIntegerWithTruncation and
  GetDifferenceSettings.
- `src/duration.rs`: ToTemporalDuration of a duration string or a
  duration-like object.
- `src/instant.rs`, `src/zoned_date_time.rs`: the handles, their records,
  CreateTemporalInstant, ToTemporalInstant, AddDurationToInstant,
  DifferenceTemporalInstant, and the ZonedDateTime intrinsics.
- `src/gc.rs`: marking and compaction of handles.
- `src/temporal.rs`: the calls into `temporal_rs` (parsing, adding and
  differencing instants, parsing durations, reading a zoned date-time's
  epoch nanoseconds), with the contracts they are trusted to meet.
- `app/lib.rs`: conversion between the engine's `f64` Numbers and the
  library's Numbers.
