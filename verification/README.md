# smaragd

The editor-state logic of the Smaragd writing app, verified with Verus.

`src/` is the library. Each module states its behaviour in `requires` /
`ensures` contracts over mathematical models, and the cross-cutting
properties as public proof functions named `law_*`:

- `doc_path`, `path_map`: component-wise paths and a path-keyed map.
- `document_history`, `navigation`: Back/Forward history with remembered
  cursor positions, kept in step with renames, moves and deletions.
- `bookmarks`: line/byte arithmetic and next/previous bookmark stepping.
- `activity`, `status_cache`, `status_bar`: word-count activity tracking,
  the per-document status cache, and the status bar's numbers.
- `menu_nav`: arrow-key navigation of the menu bar and its submenus.
- `commands`, `git_flow`, `collab_flow`, `binder_ops`, `external_watch`,
  `notifications`, `settings`, `labels`, `search_scope`,
  `plugin_shortcuts`: what commands, git and collaboration actions, binder
  operations, outside file changes and notifications lead to.

`tests/` exercises the library on concrete values. `app/` holds a few
pieces of egui and std glue (path and theme conversion, clocks, menu
arrow keys, bookmark jumps, the close request); it is not a complete
application, and most of the library's decisions have no caller there.
