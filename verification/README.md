# boed

Bayesian Optimal Experimental Design, with its decision logic verified.

`src/` is the verified library:

- `float_order`: an exact ordering of IEEE 754 doubles by their bit patterns
  (`FloatKey`), proved to agree with `<`, `<=` and `==` on doubles
- `estimator`: the sampling plan of the nested Monte Carlo estimator; the
  prior draws of the evidence term are proved separate from the outer draws
  and from the observation draws whenever no index saturates, that is when
  `n * (n + 2) <= usize::MAX` for `n` samples
- `optimization` and `continuous`: the settings checks, the choice of the best
  design, and the coarse-to-fine narrowing of a bounded interval
- `sequential`: the state of a plan-observe-update loop, whose steps are
  numbered in order
- `continuous` also holds `ContinuousDesignSpace`, whose ends are proved
  finite and ordered
- `runtime` and `config`: the registry of study runtimes, the checks of a
  study configuration and of an observation record, the rendering of a
  session's history, and the posterior rule of the `boundary_mapping` model,
  whose updates are proved idempotent and commuting; a boundary-mapping step
  (`observe_boundary`) checks the record, narrows the support and records the
  step, and a reported step replays to the same design and outcome

`app/` holds what works on floating-point values: the `BayesianModel` and
`UtilityFunction` traits, the Monte Carlo averages, the grid arithmetic of the
continuous search, the serde forms of the configuration types, and the
`StudySession` runtime.
