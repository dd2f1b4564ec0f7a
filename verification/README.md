# reqres_kafka

The request/response pattern (HTTP) run over publish/subscribe (Kafka). A
request proxy takes HTTP requests, gives each a fresh identifier, remembers
who waits for it and publishes it; a response proxy consumes requests, posts
them to a REST API and publishes the answers under the same identifier; the
request proxy pairs each answer with the request that waits for it.

- `src/` is the verified library: the message format on the topics and its
  decoding (`kafka`, `kafka_controller`), the table of waiting requests
  (`pending`), the pairing task's decisions (`sync_2`, and `sync` with
  `future` for requests that wait as futures), the proxies' small rules
  (`rest`, `response_proxy`), the REST API's handlers (`rest_api`), and the
  end-to-end law (`round_trip`).
- `app/` runs it: the HTTP servers, the Kafka clients, the channels and the
  loops that perform what the library decides. Its first argument picks
  `request-proxy`, `response-proxy`, `rest-api` or `client`.
- `tests/` runs the library on concrete values.
