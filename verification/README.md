# tarah

A small helper around pacman and the AUR, split in two:

- `src/` is the verified library (Verus). It reads the raw command line
  (`ops`), splits and trims text the way `str` does (`text`), places the
  build cache (`paths`), reads AUR metadata replies (`aur`, `json`), sorts
  package lookups and steps an AUR build along (`install`), steps `-Sy pkg`
  along (`sync`) and reads `pacman -Qem` to decide what to update
  (`update`).
- `app/` is the program: argument parsing, running pacman, git, makepkg,
  HTTP requests and printing, driven by the library's decisions.

`tests/` holds the library's tests.
