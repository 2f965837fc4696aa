# tondi_seeder

A DNS seeder for the Tondi network: it crawls the peer-to-peer network for
reachable nodes, keeps an address book of them, and answers DNS queries
for its host name with addresses of good peers.

The decisions of the seeder are a library verified with Verus (`src/`):

- `manager`, `nodetable`: the address book, kept in a `dashmap` map keyed
  by address; adding, attempting, marking good, pruning, and the rules of
  good, stale and expired peers.
- `selection`: which peers a crawl round polls and which a DNS answer names.
- `dns`, `dns_wire`: which queries are answered, the records of an answer,
  and the request and response messages read and written with
  `trust-dns-proto`.
- `crawler`: known peers from the settings, what a poll's outcome does to
  the book, and the crawl loop's next step.
- `grpc`: the addresses and tallies the service reports.
- `checkversion`, `netaddr`, `constants`, `tondi_protocol`,
  `dns_seed_config`, `logging`, `logfiles`, `version`, `errors`, `text`:
  version checks, address parsing and routability, settings rules, the
  networks, seed servers, logging settings and counters, log directory
  cleanup, and error texts.
- `laws`: properties that hold across the book's operations.

`app/` is the program around it: command line and settings file, logging
set-up, the address book on disk, the UDP server, the crawler's tasks, and
the monitoring and profiling pages.
