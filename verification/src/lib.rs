//! Declarative media-analysis graphs and the interpretation of the
//! annotation streams their execution produces.
//!
//! The library owns the graph description model (`order`), the numeric
//! ground work for annotation values (`rational`, `decimal`, `text`),
//! the annotation entry model (`entry`), the probe configuration
//! (`check`), one interpreter per detector (`silence_detect`,
//! `black_detect`, `black_and_silence`, `scene_detect`, `crop_detect`,
//! `ocr_detect`, with the shared interval engine in `interval`), the
//! orchestrators and per-stream result records (`deep`, `simple`), and
//! the report's omission-ruled wire form (`serial`).
//!
//! Opening containers, running filter graphs and producing the raw
//! annotation entries is the business of an external execution engine;
//! the interpreters receive those entries as plain values and are
//! verified for every value the engine could hand back.

pub mod rational;
pub mod decimal;
pub mod text;
pub mod entry;
pub mod check;
pub mod order;
pub mod deep;
pub mod interval;
pub mod silence_detect;
pub mod black_detect;
pub mod black_and_silence;
pub mod scene_detect;
pub mod crop_detect;
pub mod ocr_detect;
pub mod simple;
pub mod serial;
