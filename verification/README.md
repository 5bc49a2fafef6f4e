# gproxy

A gRPC-aware reverse proxy. Requests are routed by path prefix, spread over the
healthy backends of a route, and guarded per route by an OIDC sign-in. TLS
certificates come from files or from an ACME server, and a plain-HTTP listener
answers ACME challenges and redirects everything else to HTTPS.

`src/` is the library, verified with Verus: every decision of the proxy is a
function with a contract, stated over sequences, maps and the settings.

| module     | what it decides                                                        |
|------------|------------------------------------------------------------------------|
| `config`   | the settings, and the defaults of what is left out                     |
| `routing`  | which route serves a path                                              |
| `health`   | which backends are probed, and what the outcomes mean                  |
| `proxy`    | which requests the proxy answers itself, and whose turn it is          |
| `auth`     | the OIDC guard, the callback and the session cookie                    |
| `tokens`   | session tokens and the headers made of their claims                    |
| `urls`     | percent-encoding and form-encoded queries                              |
| `acme`     | when a certificate is renewed, and the steps of an order               |
| `redirect` | the plain-HTTP listener                                                |
| `startup`  | what to listen on                                                      |
| `http`     | the parts of requests and responses that the decisions rest on         |
| `error`    | why no backend could be chosen                                         |
| `base64`   | Base64 texts                                                           |
| `clock`    | what the clock of the machine shows                                    |
| `text`     | string operations over sequences of characters                         |

Proof functions named `law_...` state what holds across functions. Calls into
other crates stand behind small functions whose contracts say what is relied on.

`app/` is the program around the library: listeners, sockets, files, timers and
the configuration file. `tests/` runs the library.
