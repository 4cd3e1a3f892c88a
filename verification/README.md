# turnik

Keeps local copies of threads of the imageboard 2ch.hk: it watches their pages,
downloads the media files that they link to, and stops once a thread is in the
archive or gone.

`src/` is the library, written in Verus. It decides: which thread an address
names, which links of a page are media files, what to ask for and how to read
the answer, what to download next and where to keep it, when a thread is over,
and what a command over the web asks for. Every function there has a contract,
and what holds of several of them together is proved beside them.

`app/` is the program around it: files, network, database and channels. It does
what the library decides and hands back what came of it.

What the library takes from other crates (reading addresses, finding anchors in
a page, matching names, reading header values, counting seconds) stands behind
functions named `outside_...` and `utc_timestamp`, each with a statement of what
is taken on trust.

Settings are read from `turnik.toml` in the current directory:

    download_path = "/path/to/an/existing/folder"

Commands come in as JSON at `http://127.0.0.1:3030/hello`:

    {"command": "add_thread", "params": {"url": "https://2ch.hk/b/res/1.html"}}
    {"command": "stop", "params": null}
