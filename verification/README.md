# spdf

PDF text extraction with selective OCR, as a verified library and a
command-line tool.

- `src/` is the library, verified with Verus. It holds the parts of the
  pipeline that decide on text and bytes: the input guards (input size,
  declared stream lengths, FlateDecode zip-bomb budget, AcroForm probe),
  page selection, text cleanup (raw text, OCR words, table artifacts,
  sub/superscripts, layout tidying), CID-garbage detection, running
  header/footer removal, phrase search over text items, OCR language codes
  and page choice, Tesseract TSV rows, converter selection and messages,
  and the configuration with its builder. Calls into `flate2` and `infer`
  go through small trusted wrappers whose contracts are stated in their
  doc comments.
- `app/` is the `spdf` program around it: the PDFium binding, the HTTP OCR
  client, converter processes, the file system, and the geometry on
  floating-point coordinates (layout projection, tables, bounding boxes).
- `tests/` exercises the library on concrete inputs.
