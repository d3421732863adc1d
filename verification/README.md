# cloudreve_native

The native part of a HarmonyOS client for Cloudreve servers, versions 3 and 4 of the API.

`src/` is the library: what is decided and computed between the caller and the server, proved with
Verus against the contracts of its functions. It makes no requests and reads no files.

| Module | What it holds |
| --- | --- |
| `text`, `query`, `float` | characters, percent-encoding, double-precision numbers by their bits |
| `json`, `parse`, `lookup`, `output`, `key_order` | JSON values: reading, searching, building, the order of keys |
| `path`, `path_laws`, `names`, `directory` | paths, URIs, file names, making directories |
| `errors`, `batch` | errors of the API, expired logins, batches |
| `session` | tokens, logins, repeating a request after a silent refresh |
| `listing`, `search`, `order`, `objects` | directories, searches, what is done to objects |
| `upload` | upload sessions, the stream of a chunk, what the server says of it |
| `share`, `tasks`, `thumb` | share links, tasks, thumbnails and avatars |
| `logger` | lines for the system log |

Requests that alternate with decisions are small machines (`DirectoryWalk`, `Run`, `Search`,
`ShareList`, `V3ShareList`, `ChunkStream`): the caller performs the action and hands back the event.
Functions named `law_...` state what holds across several functions.

`app/` holds the N-API bindings: the HTTP client, files, the state of the process, serde, and the
conversion of floating-point numbers. `tests/` runs the library on concrete values.
