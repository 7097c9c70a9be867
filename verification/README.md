# ui_solver

The results of a UI layout solver, verified with Verus: inline text lines, box
constraints, positioned rectangles, computed transforms, the values that are cached
on the GPU, and hit testing.

Every measured quantity has a type that implements `Scalar`. The contracts state the
exact expression that each function evaluates, in its order of evaluation, so that
they hold of a rounding scalar, too.

The algebraic laws are proved for every scalar with the arithmetic that they need:
`Ring` for sums and products, `Field` for quotients, `Angles` for sines and cosines,
`Ordered` for the larger and the smaller of two numbers. The real numbers have all of
it; of the scalars that the crate carries, `i64`, exact modulo 2^64, is an ordered ring,
and `Residue`, exact modulo 7, is a field with angles. A floating point scalar rounds
and has none of it but, among numbers, the order.

- `src/` is the library.
  - `scalar`, `geometry`, `style`, `dom`: the data that the layout reads
  - `constraint`, `solved`, `rect`, `overflow`, `scroll`, `text`: boxes and lines
  - `transform`, `gpu`, `hit`: matrices, the cache of the renderer, hit testing
  - `parallel`: the one item that is trusted, a parallel map
  - `ring`, `whole`, `residue`: exact arithmetic, and the scalars that have it
  - `formal_sum`, `formal_product`: sums and products in any order, for the proofs
  - `*_laws`: what holds of several functions together
- `tests/` runs it, over whole numbers, residues and floats.
- `app/` is the renderer's side: the float scalar, the units and angles of parsed
  styles, and the lookup of processor features.
