# pulsar

The consumer side of an Apache Pulsar client, verified with Verus.

- `src/` is the verified library. It holds the rules by which messages are delivered, batches are
  taken apart, negative acknowledgements are collected and redelivered, many topics are consumed in
  turn, and brokers are looked up. Nothing in it talks to a broker: what the network decides is
  an argument, and every request to the broker is a value.
- `app/` drives the library with `futures`: streams of messages, the task that redelivers, and
  asynchronous lookup, over a connection and an executor that the user brings.
- `tests/` runs the library on concrete values, with the real decoders, bit vectors and patterns.

A consumer, a multi-topic consumer, the handler of negative acknowledgements and a lookup are each a
state machine: a step takes an event and answers what to do next. What a step does is stated as a
relation between the state before, the event, the state after and the answer (`poll_step`,
`multi_step`, `nack_step`, `lookup_step`), and what holds of every run is proved from these.
