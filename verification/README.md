# cmake_parser_derive

The logic of the `CMake` and `CMake2` derives for the `cmake-parser` crate,
verified with Verus.

- `src/` decides what a derive generates for a type: which `#[cmake(...)]`
  attribute counts and what it sets (`attribute`), the keyword and parser mode
  of every field (`options`), the `CMakeParse` plan of `CMake2`
  (`parse_impl`), the `CMakeCommand` plan of `CMake` (`command_impl`), the
  errors (`error`), and properties of all of these (`laws`). Case conversions
  and the path check call `std`, `inflections` and `syn` (`text`).
- `app/` reads the derive input with `syn`, hands the library plain values,
  and writes the library's plans out as Rust code with `quote`.
