# breadcrumbs

Breadcrumb navigation for a code editor: the bar that shows where a file and the symbol under the
cursor stand, and the dropdowns that browse from there.

- `src/` is the verified library. It decides which segments the bar shows, how the row is measured,
  collapsed and placed, what each dropdown lists and selects, and how a dropdown's session moves
  between segments. Lengths are whole device pixels, or parts of one.
- `app/` ties the library to an editor framework: floating-point lengths, drawing, and work that
  waits for something.
- `tests/` run the library on concrete values.
