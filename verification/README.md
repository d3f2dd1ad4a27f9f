# netcdf_merge

Merges two NetCDF-4 files in memory, behind a small HTTP server.

A client uploads `part_a` and `part_b` under one name and reads the combined file:

| Method | Endpoint              | Answer                                |
| ------ | --------------------- | ------------------------------------- |
| `GET`  | `/`                   | `Server is running.`                  |
| `POST` | `/part_a?name=<name>` | stores the body as part A of the name |
| `POST` | `/part_b?name=<name>` | stores the body as part B of the name |
| `GET`  | `/read?name=<name>`   | the two parts, merged                 |

A request that cannot be met is answered with `400 Bad Request` and a message.

## What merging means

The combined file holds everything of part A and, of part B, the dimensions, global attributes and
variables whose names part A does not have. Dimensions of the same name must have the same length.
Variables of numbers, characters and strings are merged, other types are refused. Only NetCDF-4
files are accepted as uploads.

## Layout

- `src/` is the library, verified with Verus. It decides which call of NetCDF-C comes next and what
  each reply leads to. `src/laws/` states what holds of it as a whole; `laws::merging::law_merge`
  says that a merge that runs against NetCDF-C ends with the file of the merged dataset.
- `app/` is the server: HTTP, the lock, and the calls of NetCDF-C.
- `tests/` runs the library, with a stand-in for NetCDF-C.

NetCDF-C itself is described by `netcdf::World`, a model of the functions that a merge calls. What
is proved of whole merges is proved of a NetCDF-C that behaves so.
