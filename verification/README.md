# backend

A web backend that lets users submit fully homomorphically encrypted (FHE)
jobs to an external computation service and read back their decrypted
results, either with the user's own client key or through a threshold KMS.

- `src/` is the verified library: request validation (IP lists, file hashes,
  KMS key identifiers), the job lifecycle (pending, processing, done or
  failed), reading the decrypted bit set of an IP-matching job, session
  identifiers, the registration and login decisions, and the decisions of
  the KMS client (joining core lists, core URLs, the decryption quorum,
  collecting answers, fetching public elements).
- `app/` is the server around it: HTTP routes (axum), the session and job
  stores (dashmap), the client of the external service (reqwest), the FHE
  calls (tfhe) and the KMS calls.
- `tests/` exercise the library on concrete values.
