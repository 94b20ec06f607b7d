# blacc

A command line client for [Black](https://github.com/psf/black), the Python code formatter.
It has a running `blackd` server do the formatting, so that the time it takes to start Black is
paid once and not for every file.

```
$ blackd --bind-port 45484
$ blacc --url http://localhost:45484 src/
```

## Layout

- `src/` is the library, verified with [Verus](https://github.com/verus-lang/verus): which files
  are formatted, how the command line and the configuration file go together, what is asked of
  the server, what is done with its answer, and what is reported.
  - `config`: the command line over the configuration file
  - `project`: Black's section of a project's TOML file
  - `filter`: the two regular expressions that choose paths
  - `walk`: the files to format in a directory
  - `plan`: what a run sets out to do
  - `format`: the request for one source, the answer, the report
  - `limits`: how many files are worked on at a time
  - `error`: what can go wrong, in words
  - `text`: numbers, key names and lists as text
- `app/` is the program around it: the command line, files, the network.
- `tests/` runs the library.
