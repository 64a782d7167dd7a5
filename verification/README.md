# zune_png

Verified reconstruction ("unfiltering") of PNG scanlines: the Sub, Up,
Average and Paeth filters, their first-row variants, and the row handlers
that decline rows shorter than one pixel.

- `src/model.rs`: the mathematical model (reconstructed bytes, rows,
  which bytes each path covers, and the filters an encoder applies).
- `src/fast.rs`: the reconstruction routines, each with a contract over the model.
- `src/de_filter.rs`: the row handlers and the exported Paeth predictor.
- `src/laws.rs`: proved properties that span functions (round trips,
  first-row equivalences, fast paths against the byte-wise definition).
