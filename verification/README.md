# anup

Browse the anime series in a directory, with each series paired to anime on
AniList: its formats (TV, movies, OVAs, ...) and the seasons those are split
into.

## Layout

- `src/` is the library, verified with Verus.
  - `detect`: reading episode numbers, seasons and formats out of file names,
    and series names out of directory names.
  - `series`: local series and their episodes (`episode`, `local`), the
    pairing of a series with anime (`root`), scoring and pairing formats
    (`automatch`), and splitting a format's episodes into continuous seasons
    (`seasons`). Pairing needs replies from the remote service, so it is a
    sequence of steps that each ask the caller for the next reply.
  - `anime`: anime as the service describes them, and reading its replies
    (`api`).
  - `tui`: the interface's state and decisions: the panel stack, the log and
    main panels, the series list and its selection, and what the widgets
    show.
  - `image_cache`, `util`: naming cached images, writing numbers, reading a
    byte stream up to a limit.
- `tests/`: tests of the library.
- `app/`: the program: the terminal interface (drawing and keys), scanning the
  disk, and the requests to AniList.
