# s3-get

Downloads one object from an S3-compatible store, with the aliases of the MinIO Client
(`~/.mc/config.json`). The result goes to standard output as a JSON record, audit records
go to standard error as JSON lines.

    s3-get [OPTIONS] <alias/bucket/key> [DESTINATION]

The crate `s3_get` under `src/` makes every decision and is proved in Verus:

- `source`: the parts of a source, the file name of a key, the local destination
- `config`: where the configuration is, whether it may be read, its aliases
- `record`, `json`: the records and audit lines, as JSON objects on one line
- `error`: why a download fails, and in what words
- `session`, `steps`: a download as stages, actions and events
- `laws`, `hiding`: what holds of every download
- `path`, `system`: paths as bytes, and how systems write them
- `text`: small tools on text
- `outside`: the calls into other crates, with what is believed of them

The program under `app/` performs the actions: files, the network, the terminal. `tests/`
runs the library on concrete values.
