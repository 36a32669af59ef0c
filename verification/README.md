# allm proxy routing

The request-routing core of the allm OpenAI-compatible proxy, verified with Verus.

- `src/router.rs`: which requests are refused, answered directly, listed or
  forwarded (`route`), and what a model-resolution decision leads to
  (`forward_request`), and the forwarding exchange as a step function
  (`forward_begin`, `forward_next`) that `app/` runs.
- `src/reply.rs`: the replies the proxy gives itself (plain text and
  OpenAI-style error objects) and their content types.
- `src/catalog.rs`: the id each discovered model is listed under (label, else
  file stem of its path) and the sorted model listing.
- `src/text.rs`: string equality, decimal rendering and the byte-wise string order.
- `app/`: hyper and serde glue: requests in, responses out, the awaited work.
