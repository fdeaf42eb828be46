# External Pod Autoscaler

A Kubernetes controller that scales workloads by metrics scraped from their pods. An
`ExternalPodAutoscaler` (EPA) names a workload, the metrics to scrape and the targets
to scale by. For each EPA the controller keeps a HorizontalPodAutoscaler, scrapes the
workload's pods, and serves the aggregated values as external metrics. Several replicas
share the EPAs by rendezvous hashing over their leases.

The decision logic is a Verus library. Its functions carry contracts that Verus proves.

## Layout

- `src/`: the verified library
  - `apis/`, `k8s.rs`: the custom resources, and the parts of Kubernetes objects that are read or built
  - `membership/`: which replicas there are, and which of them answers for which EPA
  - `scraper/`: when and what to scrape, selectors, and the Prometheus text format
  - `store/`: sliding windows of samples, cached aggregations, configurations
  - `webhook/`: external metrics API, validation and defaults, JSON patches
  - `controller/`: reconciliation, managed HPAs, registration of the API
  - `text.rs`, `number.rs`, `duration.rs`, `labels.rs`, `names.rs`: what the rest is built from
  - `laws.rs` in a directory: properties that span several functions
- `tests/`: tests of the library
- `app/`: the program around it: API server, HTTP, clocks, floating-point arithmetic

Times are nanoseconds of the process's clock, or microseconds since the epoch where they
come from the API server. Sample values are carried as text and cached values as bits;
`app/values.rs` computes with them.

Calls into `humantime`, `fnv`, `dashmap`, `json-patch`, `serde_json` and `base64` stand
behind functions marked `external_body`, whose comments say what is taken for granted.
