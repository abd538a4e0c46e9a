# spanda_platform

The decision logic of the Spanda robotics platform — package validation,
plugin manifests, operational readiness, runtime faults, risk scoring and
recovery orchestration — written in Verus, with every function's behaviour
stated in its contract and proved.

## Layout

- `src/` — the verified library.
  - `text` — string helpers with exact specifications (decimal text,
    lowercase, containment, sorted string sets).
  - `package` — safety levels, capability catalog, official-package rules,
    registry index checks and package validation.
  - `plugin` — plugin manifests and their validation.
  - `faults`, `fault_impact` — runtime fault kinds and statuses, diagnosis
    text, recovery recommendations, and what faults do to readiness.
  - `risk` — weighted risk scores and tiers.
  - `ops` — severity, grouping key and action of PagerDuty events.
  - `readiness` — severities, deployment gates, entity health roll-ups,
    entity verification findings, diagnostics, forecast risks and mission
    models.
  - `recovery` — escalation levels and strategies, policies and playbooks
    (and their configuration), recovery decisions, the recovery graph,
    plans, timelines, evidence, learning, simulation, predictive
    indicators and text reports.
- `tests/` — tests against the compiled library.
- `app/` — the parts that touch files, clocks, TOML/JSON documents and
  floating-point scores, calling into the library.

Laws of the library (what every operation keeps, what one call undoes) are
public proof functions named `law_*`, beside the functions they speak of.
