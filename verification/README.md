# oxidact

The logic of a small user-interface framework in the style of React Native, with its
behaviour stated in contracts and proved with Verus.

- `src/vnode.rs`: the node tree (`VNode`), its attributes and their laws.
- `src/tree.rs`: the indented text outline of a tree.
- `src/css.rs`: turning style strings into CSS, reading the background colour.
- `src/dom.rs`: the page elements that show a tree in a browser.
- `src/web.rs`: click actions, console messages, the store of text-field values.
- `src/lex.rs`: the lexical rules of the markup (Rust's whitespace, comments, identifiers,
  string literals and braced expressions).
- `src/rsx.rs`: the markup grammar (`<Tag attr="..."> ... </Tag>`), the code it expands to,
  and the trees literal markup builds.
- `src/render.rs`: the render loop's decisions (surface size, resizing, frame errors).
- `src/navigation.rs`, `src/screens*`, `src/components*`, `src/styles*`, `src/app.rs`: the
  example app (login and sign-up screens, bottom navigation bar).
- `src/cli.rs`: the decisions of the command-line tool (commands, adding a screen to the
  `Screen` enum).
- `app/`: the programs around the library: the command-line tool (`app/main.rs`), and the
  window renderer (wgpu, winit) and browser preview (web-sys) that an app built on the
  library runs through `runtime::run_app`. wgpu and winit are left out of `Cargo.toml`
  for the size of their sources; `app/renderer.rs` builds once they are added.
