# brush

The decision-making core of the Brush Gaussian-splatting tool, written in
Verus. The functions under `src/` carry contracts that the verifier proves,
except the small functions marked `#[verifier::external_body]` that call
std, `chrono`, `rand`, `humantime`, `path_clean`, `urlencoding`, `ply_rs` and
`zip`: their contracts are trusted, not proved, and each one's doc comment
says what it claims of the call it makes.

What lives here:

- `size_format`, `library`, `cli_status`: sizes, ages and status lines as
  the user reads them.
- `export`: export directory, auto-save timing, export file names, and which
  old auto-saves are removed.
- `ply`, `ply_header`, `quant`, `delta_plan`, `row_plan`, `header_scan`: PLY header reading and layout
  decisions, property routing, packed-field layouts, the reading plan
  of delta-compressed files (`delta_plan`), the row plan of plain and chunked
  files (`row_plan`), and the scan of header numbers (`header_scan`).
- `source`, `vfs`, `dataset`, `dataset_list`, `dataset_browser`, `storage`:
  where data comes from, how an archive or folder is read as a file system,
  which files of a dataset are used, and the list of stored datasets.
- `train`, `view_order`, `render_aux`: what follows a training step, the
  order of training views, and render bookkeeping.
- `config`, `control`, `panels`, `settings_panel`, `scene_state`,
  `app_state`, `stats`, `visualize`, `launch`, `query`: options, process
  control and the state behind the interface.
- `send`: the marker trait for values handed between tasks.
- `text`, `paths`: string and path helpers shared by the rest.

`app/` is a small command-line program around the library: it reads the
arguments and the disk, and prints what the library decides.
