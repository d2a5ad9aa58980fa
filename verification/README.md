# sparam

Recovers the complex permittivity of a material from its scattering parameters
in a rectangular waveguide, with real and complex networks and with the
closed-form inversion.

- `src/` is the library. It is written in Verus: every function carries a contract
  that is proved, but for those that only call something outside (see below).
  - `base/`: errors, validation, grids, seeds, metrics, naming rules.
  - `data/`: tensors, batching, scaling, CSV tables, generated datasets, layouts.
  - `workflows/`: the plans and decisions of training, evaluation, studies,
    ensembles, diagnostics and benchmarks.
  - `cli/`: how arguments, configuration files and defaults combine.
  - `scalar`, `sort`, `text`, `json`, `paths`, `prng`, `model`: what the others are made of.
- `tests/` runs the library on concrete values.
- `app/` is the program around it: files, logs, floating-point numerics, model
  training and command lines.

Doubles are held by the library as their bit patterns (`scalar::Scalar`). It orders,
classifies, negates and moves them; arithmetic on them is done in `app/`.

The library leans on `csv`, `serde_json`, `rand` and `rand_chacha`, and on a few
functions of std: `String::push`, `str::to_uppercase`, the message of
`str::parse::<usize>` and `Path::join`. What it takes from them without proof is stated
at the functions marked `external_body`, at the `assume_specification` of `String::push`
and at the specifications without a body beside them.
