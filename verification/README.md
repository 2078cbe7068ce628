# sdkman_list

The `sdk list` command of SDKMAN: list all candidates, or the versions of one
candidate (online when possible, otherwise the installed ones).

- `src/` is the verified library. It decides what the command shows: the
  request the command line makes (`command`), the rows of the listings and the
  messages (`listing`, styled text in `text`), the order of versions (`order`),
  which directory entries are installed versions and which one is in use
  (`versions`), the known candidates (`candidates`), and the requests sent to
  the candidates service with their failure messages (`remote`).
- `app/` is the program around it: command-line parsing, the SDKMAN directory,
  the environment, HTTP requests and coloured printing.
- `tests/` runs the library on concrete inputs.
