# Scadline

A desktop viewer for OpenSCAD (`.scad`) models, with a timeline of the Git history of the model
file. Its logic is a library that is verified with Verus.

- `src/` is the verified library: the command line and the configuration (`cli`, `config`), the
  history of a model file (`revision`, `paths`, `git`, `timeline`, `calendar`), making models and
  keeping them in a disk cache (`loader`, `service`, `mesh`, `cache`, `prune`, `migrate`), and the
  state of the user interface (`app_state`, `ui`, `cube`). The functions named `law_...` state what
  holds over several operations; those on the user interface are in `app_laws`, those on the
  migration of old caches in `migrate_laws`.
- `app/` is the program around it: the window and OpenGL, files and processes, libgit2.
- `tests/` runs the library.

Models are made by the `openscad` command, or by `openrscad` with `--backend openrscad`; either has
to be on the `PATH`. The mesh of a commit is kept below the cache directory of the system as
`scadline/<repository>/<commit>/[<backend>-]<path>.stl`.
