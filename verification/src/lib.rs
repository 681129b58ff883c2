pub mod models;
pub mod workbook;
pub mod cleaning;
pub mod uparams;
pub mod replies;
