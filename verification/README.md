# Nimiq JSON-RPC

JSON-RPC 2.0 for servers and clients over HTTP and websocket. What the library decides is stated in contracts and proved by Verus.

## The library (`src/`)

| Module | What it holds |
| --- | --- |
| `json`, `shape`, `fields`, `text` | JSON values and their exchange with `serde_json`, records, text |
| `error` | Error objects of the protocol, and what else can go wrong with a message |
| `request`, `response`, `batch` | The messages, single, in lists, and of either kind |
| `subscription`, `id_map`, `stream` | Subscriptions, their IDs, and the notifications of their items |
| `rename`, `derive`, `args`, `service` | What is generated for services and proxies, how parameters are bound to arguments, how a service dispatches a request |
| `dispatch` | Dispatchers, and how they are composed and restricted |
| `auth`, `config` | Basic auth, the configuration of a server, which requests pass |
| `server`, `frame` | The state of a server, the exchange with a client, websocket messages |
| `client`, `credentials`, `websocket`, `http` | The state of clients, and how they authorize themselves |
| `laws` | What holds of a whole exchange between a client and a server |

A dispatcher does not call a method itself. It decides what a request comes to: a response, or a
call, with its arguments bound. The caller reads the arguments in the order that the call gives,
has it checked with what does not fit its type, makes it, and hands its outcome back, so that the
library needs neither I/O nor a runtime:

```rust
let mut exchange = Exchange::open(&message, false, None);
loop {
    match exchange.step(&mut server) {
        Step::Done(reply) => return reply,
        Step::Request(handled) => {
            if let Action::Call((stream_id, call)) = handled.action {
                let outcome = /* check the call, and call the method */;
                exchange.resume(&mut server, stream_id, outcome);
            }
        }
    }
}
```

## Deprecating methods

RPC methods can be marked with the standard Rust `#[deprecated]` attribute. A deprecated method is
dispatched like any other, with a warning to be logged. Any client can query the built-in
`rpc.deprecatedMethods` method to get the list of deprecated method names, and `rpc.methods` for the
full list.

## Around the library (`app/`)

Servers over `axum`, clients over `reqwest`, `tokio-tungstenite` and `web_sys`, an authentication
filter for `warp`, the messages as records that `serde` reads, and the macros for services and
proxies, which read and write code with `syn` and `quote`.
