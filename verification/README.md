# platform_poc

The decision logic of a small shop platform (products, inventory, orders
and notifications), verified with Verus.

- `src/` is the verified library. Each service's rules are plain functions
  with contracts; where a service talks to a store, a broker or another
  service, the library offers a step function from state and event to the
  next state and the action to perform, and the caller performs it.
- `tests/` runs the library on concrete values.
- `app/` holds the container services (`inventory`, `orders`, `products`,
  `notification`): HTTP, Postgres, Redis, NATS and Kafka plumbing around the
  library, chosen by the first command-line argument.

Laws that span several functions are public proof functions named
`lemma_*`, next to the functions they speak of.
