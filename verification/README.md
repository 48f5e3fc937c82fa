# nestix-native-winui

The decision logic of a WinUI 3 backend for Nestix user interfaces, written in
Verus and proved against its contracts.

- `src/` — the verified library: the callback registries behind native events,
  child and option ordering of XAML containers, menus and keyboard
  accelerators, drag-and-drop operation mapping and registration stacks, file
  picker results, the application and window lifecycle, the WebView document
  handling (base-URL injection, resource paths and URLs) and its lifecycle,
  tray-icon synchronisation, window materials, navigation selection and the
  Windows App SDK package checks of the build helper.
- `tests/` — tests on concrete values for each module.
- `app/` — the platform side: file-system probing, the packaged-application
  query and the floating-point layout helpers, calling the library for every
  decision.
