//! Extraction-and-diff engine for a spreadsheet ledger that is polled for
//! changes: a civil-calendar converter for the spreadsheet's serial dates,
//! a resolver that turns a workbook's named ranges into column positions,
//! a row extractor for the business "active" states, and a snapshot differ
//! that reports the records that changed between two extractions.

pub mod daemon;
pub mod diff;
pub mod excel;
pub mod purchase;
pub mod simple_time;
pub mod text;
