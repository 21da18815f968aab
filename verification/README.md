# thrustr

Verified logic of a desktop game launcher: the interface kit's text field
(text operations, undo history, editing state), its navigation, window and
decoration components with the theme slots they pick, and the decisions of
two store plugins (Legacy Games, Epic Games), together with the
commit-message check of the project's tooling.

- `src/` is the library, written in Verus: every function has a contract and
  is proved, and the laws that tie functions together are proof functions.
- `tests/` runs the library on concrete values.
- `app/` is the commit-message hook, the JSON forms of the plugin's API
  replies, which need derives the library's own types cannot carry, and the
  floating-point pixel geometry and fading of the interface kit.

Drawing (the GUI toolkit, the theme's colour values, pixel and animation
arithmetic), network requests and the plugins' key-value storage are left to
the application around the library: it hands the library plain values and
acts on what it returns.
