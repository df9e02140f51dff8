/// The wire format: encoding and decoding of the record types, with proved
/// round trips.
pub mod codec;
/// Decimal rendering and reading of numbers.
pub mod decimal;
/// The log sink: a capped, append-only ring of structured records.
pub mod logs;
/// Parsing of the OS port-inspection tools' output.
pub mod prober;
/// The status record types and the health URL they carry.
pub mod status;
/// The process supervisor: its state, operations, and errors.
pub mod supervisor;
/// Character-level string helpers.
pub mod text;
