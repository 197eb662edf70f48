# iroh-fm

`iroh-fm` is a personal music server built around [iroh](https://iroh.computer): the music library
lives behind an iroh endpoint, and client protocols are thin frontends on top. Subsonic is the first
of them.

The logic is a Verus library under `src/`. Its functions have contracts, and Verus proves that they
keep them. The programs under `app/` do what a proof cannot cover: they walk directories, read audio
files, keep two SQLite tables, watch for changes and talk over the network. Where the library needs
any of that, it returns what is to be done (`server::Action`, `routes::Step`) and takes the outcome
back as a plain value.

## The library

| Modules | What they hold |
| --- | --- |
| `text`, `utf8`, `path`, `slug`, `sorting`, `ordered_map`, `duplicate` | texts, paths, ids, ordered maps |
| `protocol`, `index`, `error`, `config` | the vocabulary: messages, the index, errors, settings |
| `media`, `tags`, `scanner`, `builder`, `chunks`, `integrity` | from files to the index |
| `server`, `rpc`, `lastfm`, `watch` | the backend |
| `models`, `auth`, `xml`, `json`, `render`, `routes` | the Subsonic frontend |
| `cli`, `network` | arguments, identities, addresses |

What holds of the library as a whole is stated in the proof functions whose names start with `law_`:
that the size of the chunks in which tracks are indexed does not matter, that every id in an index
leads somewhere, that a second scan takes all tags from the cache and gives the same library, that
what was starred is listed, that a message is read back as it was sent, that a directory is complete,
and more.

## What is trusted

The library calls a few functions whose results Verus takes on trust. Each stands in a small function
or declaration with a comment that says what is claimed of it: conversions of bytes to text (`utf8`),
`String::push` (`text`), rayon's parallel chunks (`chunks`), the MD5 digest (`auth`), JSON values
(`json`), and the parsers of iroh's keys, addresses and tickets (`network`).

## The programs

```sh
iroh-fm \
  --music-dir /path/to/music \        # required; root music directory
  --secret your-secret-key \          # optional; fixed iroh identity
  --relay https://relay.example.com \ # optional; advertised relay URL
  --peer peer-endpoint-id              # optional, repeatable; without it access is open

iroh-fm-subsonic \
  --bind 127.0.0.1:4040 \               # optional; default 127.0.0.1:4040
  --ticket your-endpoint-ticket \       # required unless --endpoint is used
  --endpoint your-backend-endpoint-id \ # required unless --ticket is used
  --relay https://relay.example.com \   # optional; overrides the relay of the ticket
  --secret your-secret-key \            # optional; fixed local iroh identity
  --username admin \                    # optional; default admin
  --password admin                      # optional; default admin
```

Both are one executable: it is the Subsonic frontend where it is called by a name that holds
`subsonic`.
