//! Detection of sandwich trading on a bonding-curve token market: a decoder
//! for trade instructions, a windowed front-run / back-run detector, and a
//! constant-product execution simulator.
pub mod numeric;
pub mod trade;
pub mod decode;
pub mod ledger;
pub mod detect;
pub mod simulate;
