# fe-engine

A finite element engine for linear static analysis of beam and frame
structures, written in Verus.

- `src/` is the verified library. Every numeric quantity of a model has a
  scalar type `F` chosen by the caller; the library carries such values and
  decides everything that does not compute with them: model building and its
  error cases, model validation, the numbering of degrees of freedom, which
  freedoms a support holds, the compressed sparse row structure of the global
  matrix, reading displacements, reactions and element forces out of solution
  vectors, result queries, the audit trail and what each step of an
  analysis records in it, and the structure and text of
  calculation reports.
- `app/` is the numeric side, with `F = f64`: element stiffness matrices,
  assembly values, the sparse Cholesky solve, result statistics, number
  formatting, files, JSON, and an audit logger shared between threads.
- `tests/` exercises the library.
