# build-proxy

Keeps a development web server running and restarts it, on demand, after files have changed.

    build-proxy --port 8080 -- go run ./cmd/web/main.go

runs the proxy on port 8080 and starts the child server with `go run ./cmd/web/main.go`. Requests
to the proxy go to the child. When any file in the current directory changes, the child is killed;
the next request starts it again. That a directory or a file without an extension is only opened
is no change. Installed packages, the state of the version control system and
files named `swagger-initializer.js` do not count. The child takes its port from the environment
variable `PORT`.

`src/` decides and remembers; Verus proves its contracts:

- `text`: characters, lines and decimal numbers
- `watch`: which file events matter
- `ansi`: output without terminal escape sequences
- `command`: from arguments to the child's command
- `child`: starting a child and reporting why it failed
- `server`: the child in the course of requests and file changes
- `stop`: killing a child and whatever listens on its port
- `proxy`: answering a request
- `debounce`: thinning out a stream

`app/` does what waits or touches the system: sockets, processes, signals, file watching, logging.
