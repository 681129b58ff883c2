//! The records that the service takes in.
use vstd::prelude::*;

verus! {

/// The key figures of a company, as submitted for the workbook export.
pub struct Fundamentals {
    pub company_name: String,
    pub primary_sector: String,
    pub primary_country: String,
    pub total_revenue: String,
}

} // verus!
