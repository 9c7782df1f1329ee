# hydra

A client for the binary cache that [Hydra](https://nixos.org/hydra/) fills, written in Verus. It
answers two questions about a store path:

- which store paths does it refer to (`Fetcher::fetch_references`, from the `.narinfo` file), and
- which files does it hold (`Fetcher::fetch_files`, from the `.ls` or `.ls.xz` file).

`src/` is the verified library. It does no input or output: it hands out requests, takes what was
received and says what to do next.

| module     | what it is about                                                      |
|------------|-----------------------------------------------------------------------|
| `text`     | white space, words, decimal numbers, UTF-8                            |
| `package`  | store paths                                                           |
| `error`    | everything that can go wrong, with its messages                       |
| `narinfo`  | reading `.narinfo` files                                              |
| `written`  | a `.narinfo` file that was written is read back                       |
| `encoding` | content codings and decompression                                     |
| `files`    | file trees                                                            |
| `listing`  | making a file tree of the members of a JSON object                    |
| `client`   | the proxy to go through                                               |
| `request`  | the head of a request                                                 |
| `retry`    | when to try again                                                     |
| `fetch`    | what a response means                                                 |
| `fetcher`  | which requests answer the two questions                               |

The public proof functions called `law_...` state what holds of the functions together.

`app/` sends the requests with hyper on a tokio event loop and parses the JSON with serde. It reads
the URL of a proxy from the environment variable `HTTP_PROXY`.
