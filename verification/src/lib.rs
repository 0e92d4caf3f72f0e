//! Validation of eleven-character identifier tokens against a composite
//! checksum, and the evaluation of whole batches of them.
//!
//! A token is scanned once from left to right. The scan sums the weights of
//! the symbols it finds in a fixed table (`tables`, `weights`) and gathers
//! the numeral symbols into a run of entries (`numerals`). The product of
//! the run selects an adjustment of the weight total, and the adjusted total
//! decides whether the token passes (`validator`). A batch brings each raw
//! token to its plain form (`normalize`), validates it, and returns the
//! short addresses of those that pass (`batch`); what holds of a batch as a
//! whole is proved in `batch_laws`.

pub mod batch;
pub mod batch_laws;
pub mod error;
pub mod normalize;
pub mod numerals;
pub mod tables;
pub mod text;
pub mod validator;
pub mod weights;
