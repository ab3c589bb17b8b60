# feldera_connectors

The decisions of the Solace and DynamoDB connectors of Feldera, and the
validation of what its pipeline manager stores, as a library verified with Verus.

- `src/solace`: configuration, topic decomposition and routing, redelivery
  deduplication, deferred acknowledgment, the per-topic throttle, and the two
  endpoints.
- `src/dynamodb`: item sizes, write requests and their chunks, retries, workers
  and the endpoint.
- `src/validation.rs`: names, descriptions, tags and stored configurations.
- `src/text.rs`, `src/clock.rs`: what these share.
- `tests`: the library as its callers see it.
- `app`: what connects the library to the controller, the broker and the AWS SDK.
