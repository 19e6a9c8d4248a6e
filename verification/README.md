# workspace_ctrl

Verified decision kernels of the Naygo multi-pane file-manager workspace controller.

`src/` holds the logic, each function with a Verus contract over mathematical models
(`Seq`, `Set`, `Map`, `int`), and the laws of the controller as public proof functions
(`lemma_*`). Everything that touches the world — clocks, threads and channels, the file
system, hashing, the UI toolkit — is left to the caller: `app/` shows that host side (a
monotonic clock, the autocompletion worker, the job-channel drains, path texts, set hashes).

Main modules: `actions` (key routing), `palette` (command palette), `panes` (multi-pane
decisions), `navigation`, `listing`, `columns` (column menu and filters), `drops`, `radar`
(copy/move destinations and the transfer to the other pane), `compare` (marks and the
comparison toggle), `points_panel` and `recipes_panel` (the managers moved by their
workers' answers), `completion` (path-bar completion), `favorites`, `references`, `autocomplete`, `jobs`,
`messages` (localized status texts), `preview_rules`, `dates`, `size`, `text`.

`tests/` runs the library on concrete values.
