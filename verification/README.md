# not_redis

A job broker with named queues, built around a library verified with Verus.

- `src/` is the verified library:
  - `config` — the service configuration;
  - `job` — the jobs (`Queue`) and their outside form (`QueueExternal`);
  - `shared_queues` — the named queues, held in a `dashmap::DashMap`, with the
    limit on how many may exist and the switch that lets new entries in;
  - `failed_jobs` — the jobs that could not be released, per queue;
  - `worker` — the decisions of the worker of one queue: taking in jobs up to
    the queue's size limit, recording requests, and releasing the front job to
    its requester, back to the end of its queue, to the retry queue, or to the
    failed jobs;
  - `services` — the answers to the queue requests;
  - `auth` — the secret-token check;
  - `text` — decimal numbers as text and the request and response log lines.
- `app/` is the HTTP service around it (actix-web, tokio, logging, the
  configuration file): it polls the channels, holds the locks, and carries out
  what the library decides.
- `tests/` exercises the library.
