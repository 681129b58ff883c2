# backend

The logic of a small data service, verified with Verus.

- `src/models.rs`: the company record (`Fundamentals`).
- `src/workbook.rs`: the fundamentals workbook built with `umya-spreadsheet`
  (one sheet `Unwritten`, labels in column A, values in column B, a blue
  label on A2) and its xlsx archive, which holds that sheet; the workbook's
  sheets and cells, and those an archive encodes, are modelled as sequences
  and maps of plain values.
- `src/cleaning.rs`: which rows of a submitted table are revenue
  proportions, how each row's absolute proportion is computed, and the laws
  of that selection (order kept, every kept row scaled, idempotence, other
  rows changing nothing).
- `src/uparams.rs`: the uParams queries, the framing of fetched documents as
  one JSON array, and the loader that collects country codes from a cursor.
- `src/replies.rs`: plain-text replies (with a verified decimal numeral).
- `app/main.rs`: the HTTP service (axum, MongoDB, polars data frames), which
  hands the library plain values and performs its decisions.
