# rat_bar

A terminal status bar drawn with ratatui, with mouse interaction, whose texts
come from provider programs that print JSON objects, one per line.

- `src/` is the verified library (Verus): the bar's markup language (`${var}`
  references and `$[style](text)` spans), colors and styles, the variables the
  providers report, layout elements and the sizes they ask for, text scrolling,
  mouse capture and interactions, graph characters, configuration choices, the
  helper commands for kitty panels, and the decisions of the data providers
  (battery, brightness, clock, processor, network, wifi, media).
- `tests/` runs the library on concrete values.
- `app/` is the program: command line, configuration files (YAML providers,
  KDL layout), provider processes, the terminal and its event loop, and the
  drawing of bars and graphs, which scale floating-point numbers to cells.
