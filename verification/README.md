# free2pee

Finds the public bathrooms nearest to the device and lists them by walking
distance.

- `src/` is the library, verified with Verus: the response types of the
  Overpass and OSRM services (generic over the type of their numbers), which
  places are kept (`search`), the service URLs and page links (`urls`), the
  decimal text of integers and the reading of a radius (`text`), and the rows
  of the table, nearest first (`table`).
- `app/` is the Leptos web app around it: geolocation, the HTTP requests,
  JSON, the text of floating-point numbers, and the page.
- `tests/` runs the library on concrete values.
