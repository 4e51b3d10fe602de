# invomodo

An invoice builder with an offline-first session guard.

- `src/` is the library, verified with Verus: form validation and the
  invoice forms' rules, the editable grid, the grouped autocomplete (search,
  result limits, keyboard highlight), the session guard (checksum, clock
  tampering, offline window, layout choice) and the class names of the
  interface components.
- `app/` is the Leptos web application around it: routing, Firebase sign-in
  through the page's JavaScript, local storage, the browser clocks, the
  components, and the money totals, which are computed in floating point.
- `tests/` runs the library on concrete values.
